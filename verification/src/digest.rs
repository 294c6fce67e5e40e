//! Stable identifiers for feed items that carry none: a SHA-256 digest of the
//! source address, the item link and the item title, written in hexadecimal.
use vstd::prelude::*;
use crate::number::{hex, hex_string};

verus! {

/// The SHA-256 digest of `data`, as `sha2::Sha256::digest` computes it.
pub uninterp spec fn sha256_of(data: Seq<u8>) -> Seq<u8>;

/// Calls `sha2::Sha256::digest`. Claimed: the result is `sha256_of(data)`,
/// and it is 32 bytes long (the output size of SHA-256).
#[verifier::external_body]
fn sha256_digest(data: &[u8]) -> (r: Vec<u8>)
    ensures
        r@ == sha256_of(data@),
        r@.len() == 32,
{
    <sha2::Sha256 as sha2::Digest>::digest(data).to_vec()
}

/// The UTF-8 bytes of the text `s`.
pub open spec fn utf8(s: Seq<char>) -> Seq<u8> {
    vstd::utf8::encode_utf8(s)
}

/// The bytes that identify an item: the source address, the link when there
/// is one, and the title, one after the other.
pub open spec fn identity_bytes(
    source_url: Seq<char>,
    link: Option<Seq<char>>,
    title: Seq<char>,
) -> Seq<u8> {
    match link {
        Some(l) => utf8(source_url) + utf8(l) + utf8(title),
        None => utf8(source_url) + utf8(title),
    }
}

/// The identifier of an item: the hexadecimal SHA-256 digest of its identity
/// bytes.
pub open spec fn stable_hash_spec(
    source_url: Seq<char>,
    link: Option<Seq<char>>,
    title: Seq<char>,
) -> Seq<char> {
    hex(sha256_of(identity_bytes(source_url, link, title)))
}

fn push_bytes(out: &mut Vec<u8>, bytes: &[u8])
    ensures
        final(out)@ == old(out)@ + bytes@,
{
    let mut i: usize = 0;
    while i < bytes.len()
        invariant
            i <= bytes.len(),
            out@ == old(out)@ + bytes@.take(i as int),
        decreases bytes.len() - i,
    {
        out.push(bytes[i]);
        i += 1;
    }
    assert(bytes@.take(bytes@.len() as int) =~= bytes@);
}

/// The identifier of an item without one of its own: 64 lowercase hexadecimal
/// digits of the SHA-256 digest of its source address, link and title.
pub fn stable_hash(source_url: &str, link: Option<&str>, title: &str) -> (r: String)
    ensures
        r@ == stable_hash_spec(
            source_url@,
            match link {
                Some(l) => Some(l@),
                None => None,
            },
            title@,
        ),
        r@.len() == 64,
{
    let mut data: Vec<u8> = Vec::new();
    push_bytes(&mut data, source_url.as_bytes());
    match link {
        Some(l) => push_bytes(&mut data, l.as_bytes()),
        None => {},
    }
    push_bytes(&mut data, title.as_bytes());
    let digest = sha256_digest(data.as_slice());
    hex_string(&digest)
}

/// An item's identifier is the hexadecimal SHA-256 digest of its source
/// address, then its link when it has one, then its title, as UTF-8 bytes
/// one after the other; so items that differ in none of these get the same
/// identifier.
pub proof fn lemma_identity_order(source_url: Seq<char>, link: Option<Seq<char>>, title: Seq<char>)
    ensures
        link is Some ==> stable_hash_spec(source_url, link, title) == hex(
            sha256_of(utf8(source_url) + utf8(link->0) + utf8(title)),
        ),
        link is None ==> stable_hash_spec(source_url, link, title) == hex(
            sha256_of(utf8(source_url) + utf8(title)),
        ),
{
}

} // verus!

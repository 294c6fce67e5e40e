//! Character-level text processing: whitespace, trimming, word and line
//! normalization, and length clamping.
use vstd::prelude::*;

verus! {

/// `String::push` appends one character at the end of the string.
pub assume_specification[ String::push ](s: &mut String, ch: char)
    ensures
        final(s)@ == old(s)@.push(ch),
;

/// Unicode `White_Space` characters (the set that `char::is_whitespace`,
/// `str::trim` and `str::split_whitespace` use).
pub open spec fn is_whitespace(c: char) -> bool {
    let n = c as u32;
    ||| 0x09 <= n <= 0x0D
    ||| n == 0x20
    ||| n == 0x85
    ||| n == 0xA0
    ||| n == 0x1680
    ||| 0x2000 <= n <= 0x200A
    ||| n == 0x2028
    ||| n == 0x2029
    ||| n == 0x202F
    ||| n == 0x205F
    ||| n == 0x3000
}

/// `s` without its leading whitespace.
pub open spec fn trim_start(s: Seq<char>) -> Seq<char>
    decreases s.len(),
{
    if s.len() > 0 && is_whitespace(s[0]) {
        trim_start(s.drop_first())
    } else {
        s
    }
}

/// `s` without its trailing whitespace.
pub open spec fn trim_end(s: Seq<char>) -> Seq<char>
    decreases s.len(),
{
    if s.len() > 0 && is_whitespace(s.last()) {
        trim_end(s.drop_last())
    } else {
        s
    }
}

/// `s` without leading and trailing whitespace (`str::trim`).
pub open spec fn trim(s: Seq<char>) -> Seq<char> {
    trim_end(trim_start(s))
}

/// The parts joined with `sep` between consecutive parts.
pub open spec fn join(parts: Seq<Seq<char>>, sep: Seq<char>) -> Seq<char>
    decreases parts.len(),
{
    if parts.len() == 0 {
        Seq::empty()
    } else if parts.len() == 1 {
        parts[0]
    } else {
        join(parts.drop_last(), sep) + sep + parts.last()
    }
}

/// The maximal runs of non-whitespace characters of `s`, in order
/// (`str::split_whitespace`). Defined by how each further character extends
/// the runs of the text before it.
pub open spec fn words(s: Seq<char>) -> Seq<Seq<char>>
    decreases s.len(),
{
    if s.len() == 0 {
        Seq::empty()
    } else {
        let before = words(s.drop_last());
        let c = s.last();
        if is_whitespace(c) {
            before
        } else if s.len() >= 2 && !is_whitespace(s[s.len() - 2]) {
            before.drop_last().push(before.last().push(c))
        } else {
            before.push(seq![c])
        }
    }
}

/// The words of `s` separated by single spaces.
pub open spec fn normalize_inline_spec(s: Seq<char>) -> Seq<char> {
    join(words(s), seq![' '])
}

/// The pieces of `s` between line breaks `'\n'`; there is always at least one
/// piece, and a text ending in `'\n'` ends with an empty piece.
pub open spec fn split_lines(s: Seq<char>) -> Seq<Seq<char>>
    decreases s.len(),
{
    if s.len() == 0 {
        seq![Seq::empty()]
    } else {
        let before = split_lines(s.drop_last());
        if s.last() == '\n' {
            before.push(Seq::empty())
        } else {
            before.drop_last().push(before.last().push(s.last()))
        }
    }
}

/// Each line trimmed, keeping only the lines that are not blank.
pub open spec fn kept_lines(lines: Seq<Seq<char>>) -> Seq<Seq<char>>
    decreases lines.len(),
{
    if lines.len() == 0 {
        Seq::empty()
    } else {
        let before = kept_lines(lines.drop_last());
        let t = trim(lines.last());
        if t.len() > 0 {
            before.push(t)
        } else {
            before
        }
    }
}

/// The non-blank lines of `s`, each trimmed, joined by `'\n'`.
///
/// This is `s.lines().map(str::trim).filter(|l| !l.is_empty())` joined by
/// newlines: `str::lines` differs from splitting at `'\n'` only by a final
/// empty piece and by a `'\r'` before a line break, and trimming and dropping
/// blank lines removes both.
pub open spec fn nonblank_lines_spec(s: Seq<char>) -> Seq<char> {
    join(kept_lines(split_lines(s)), seq!['\n'])
}

/// At most the first `max` characters of `s`.
pub open spec fn clamp_chars_spec(s: Seq<char>, max: nat) -> Seq<char> {
    if s.len() <= max {
        s
    } else {
        s.take(max as int)
    }
}

/// Whether `c` is Unicode whitespace.
pub fn is_whitespace_char(c: char) -> (r: bool)
    ensures
        r == is_whitespace(c),
{
    let n = c as u32;
    (0x09 <= n && n <= 0x0D) || n == 0x20 || n == 0x85 || n == 0xA0 || n == 0x1680 || (0x2000
        <= n && n <= 0x200A) || n == 0x2028 || n == 0x2029 || n == 0x202F || n == 0x205F || n
        == 0x3000
}

/// The characters of `s`.
pub fn chars_of(s: &str) -> (r: Vec<char>)
    ensures
        r@ == s@,
{
    let mut out: Vec<char> = Vec::new();
    for c in it: s.chars()
        invariant
            out@ == it.seq().take(it.index() as int),
            it.seq() == s@,
    {
        out.push(c);
    }
    out
}

/// The string made of the characters `cs`.
pub fn string_of(cs: &Vec<char>) -> (r: String)
    ensures
        r@ == cs@,
{
    let mut out = String::new();
    let mut i: usize = 0;
    while i < cs.len()
        invariant
            i <= cs.len(),
            out@ == cs@.take(i as int),
        decreases cs.len() - i,
    {
        out.push(cs[i]);
        i += 1;
    }
    out
}

/// A copy of `s`.
pub fn copy_string(s: &String) -> (r: String)
    ensures
        r@ == s@,
{
    s.clone()
}

/// A copy of `s`.
pub fn copy_optional(s: &Option<String>) -> (r: Option<String>)
    ensures
        r.is_some() == s.is_some(),
        r is Some ==> r->0@ == s->0@,
{
    match s {
        Some(t) => Some(t.clone()),
        None => None,
    }
}

/// Whether `a` and `b` hold the same characters.
pub fn same_chars(a: &Vec<char>, b: &Vec<char>) -> (r: bool)
    ensures
        r == (a@ == b@),
{
    if a.len() != b.len() {
        return false;
    }
    let mut i: usize = 0;
    while i < a.len()
        invariant
            a.len() == b.len(),
            i <= a.len(),
            forall|k: int| 0 <= k < i ==> a@[k] == b@[k],
        decreases a.len() - i,
    {
        if a[i] != b[i] {
            return false;
        }
        i += 1;
    }
    assert(a@ =~= b@);
    true
}

/// Whether the text `s` equals `lit`.
pub fn text_is(s: &str, lit: &str) -> (r: bool)
    ensures
        r == (s@ == lit@),
{
    let a = chars_of(s);
    let b = chars_of(lit);
    same_chars(&a, &b)
}

/// Appends the characters of `t` to `out`.
pub fn append_chars(out: &mut Vec<char>, t: &Vec<char>)
    ensures
        final(out)@ == old(out)@ + t@,
{
    let mut i: usize = 0;
    while i < t.len()
        invariant
            i <= t.len(),
            out@ == old(out)@ + t@.take(i as int),
        decreases t.len() - i,
    {
        out.push(t[i]);
        i += 1;
    }
    assert(t@.take(t.len() as int) =~= t@);
}

proof fn lemma_trim_start(s: Seq<char>, i: int)
    requires
        0 <= i <= s.len(),
        forall|k: int| 0 <= k < i ==> is_whitespace(#[trigger] s[k]),
        i == s.len() || !is_whitespace(s[i]),
    ensures
        trim_start(s) == s.subrange(i, s.len() as int),
    decreases i,
{
    if i == 0 {
        assert(s.subrange(0, s.len() as int) =~= s);
    } else {
        assert(is_whitespace(s[0]));
        let t = s.drop_first();
        assert forall|k: int| 0 <= k < i - 1 implies is_whitespace(#[trigger] t[k]) by {
            assert(t[k] == s[k + 1]);
        }
        lemma_trim_start(t, i - 1);
        assert(t.subrange(i - 1, t.len() as int) =~= s.subrange(i, s.len() as int));
    }
}

proof fn lemma_trim_end(s: Seq<char>, j: int)
    requires
        0 <= j <= s.len(),
        forall|k: int| j <= k < s.len() ==> is_whitespace(#[trigger] s[k]),
        j == 0 || !is_whitespace(s[j - 1]),
    ensures
        trim_end(s) == s.subrange(0, j),
    decreases s.len(),
{
    if j == s.len() {
        assert(s.subrange(0, j) =~= s);
    } else {
        assert(is_whitespace(s.last()));
        let t = s.drop_last();
        lemma_trim_end(t, j);
        assert(t.subrange(0, j) =~= s.subrange(0, j));
    }
}

/// `s` without leading and trailing whitespace.
pub fn trim_chars(s: &Vec<char>) -> (r: Vec<char>)
    ensures
        r@ == trim(s@),
{
    let n = s.len();
    let mut i: usize = 0;
    while i < n && is_whitespace_char(s[i])
        invariant
            i <= n,
            n == s.len(),
            forall|k: int| 0 <= k < i ==> is_whitespace(#[trigger] s@[k]),
        decreases n - i,
    {
        i += 1;
    }
    let mut j: usize = n;
    while j > i && is_whitespace_char(s[j - 1])
        invariant
            i <= j <= n,
            n == s.len(),
            forall|k: int| j <= k < n ==> is_whitespace(#[trigger] s@[k]),
        decreases j,
    {
        j -= 1;
    }
    proof {
        lemma_trim_start(s@, i as int);
        let t = s@.subrange(i as int, n as int);
        assert forall|k: int| j - i <= k < t.len() implies is_whitespace(#[trigger] t[k]) by {
            assert(t[k] == s@[k + i]);
        }
        lemma_trim_end(t, j - i);
        assert(t.subrange(0, j - i) =~= s@.subrange(i as int, j as int));
    }
    let mut out: Vec<char> = Vec::new();
    let mut k: usize = i;
    while k < j
        invariant
            i <= k <= j,
            j <= s.len(),
            out@ == s@.subrange(i as int, k as int),
        decreases j - k,
    {
        out.push(s[k]);
        k += 1;
    }
    out
}

/// `s` without leading and trailing whitespace (`str::trim`).
pub fn trim_text(s: &str) -> (r: String)
    ensures
        r@ == trim(s@),
{
    let cs = chars_of(s);
    let t = trim_chars(&cs);
    string_of(&t)
}

proof fn lemma_join_push(parts: Seq<Seq<char>>, p: Seq<char>, sep: Seq<char>)
    ensures
        join(parts.push(p), sep) == if parts.len() == 0 {
            p
        } else {
            join(parts, sep) + sep + p
        },
{
    assert(parts.push(p).drop_last() =~= parts);
    assert(parts.push(p).last() == p);
    if parts.len() == 0 {
        assert(parts.push(p)[0] == p);
    }
}

proof fn lemma_join_extend_last(parts: Seq<Seq<char>>, c: char, sep: Seq<char>)
    requires
        parts.len() > 0,
    ensures
        join(parts.drop_last().push(parts.last().push(c)), sep) == join(parts, sep).push(c),
{
    let q = parts.drop_last();
    let x = parts.last().push(c);
    lemma_join_push(q, x, sep);
    lemma_join_push(q, parts.last(), sep);
    assert(q.push(parts.last()) =~= parts);
    if q.len() == 0 {
    } else {
        assert(join(q, sep) + sep + x =~= (join(q, sep) + sep + parts.last()).push(c));
    }
}

proof fn lemma_words_nonempty(s: Seq<char>)
    requires
        s.len() > 0,
        !is_whitespace(s.last()),
    ensures
        words(s).len() > 0,
    decreases s.len(),
{
    if s.len() >= 2 && !is_whitespace(s[s.len() - 2]) {
        let t = s.drop_last();
        assert(t.last() == s[s.len() - 2]);
        lemma_words_nonempty(t);
    }
}

/// The words of `s` separated by single spaces.
pub fn normalize_inline_chars(s: &Vec<char>) -> (r: Vec<char>)
    ensures
        r@ == normalize_inline_spec(s@),
{
    let mut out: Vec<char> = Vec::new();
    let mut has_word = false;
    let mut i: usize = 0;
    while i < s.len()
        invariant
            i <= s.len(),
            out@ == join(words(s@.take(i as int)), seq![' ']),
            has_word == (words(s@.take(i as int)).len() > 0),
        decreases s.len() - i,
    {
        let c = s[i];
        let ghost before = s@.take(i as int);
        let ghost after = s@.take(i + 1);
        proof {
            assert(after.drop_last() =~= before);
            assert(after.last() == c);
        }
        if is_whitespace_char(c) {
        } else if i > 0 && !is_whitespace_char(s[i - 1]) {
            proof {
                assert(after[after.len() - 2] == s@[i - 1]);
                assert(before.last() == s@[i - 1]);
                lemma_words_nonempty(before);
                lemma_join_extend_last(words(before), c, seq![' ']);
            }
            out.push(c);
        } else {
            proof {
                lemma_join_push(words(before), seq![c], seq![' ']);
            }
            if has_word {
                out.push(' ');
            }
            out.push(c);
            has_word = true;
            proof {
                assert(out@ =~= join(words(after), seq![' ']));
            }
        }
        i += 1;
    }
    assert(s@.take(s.len() as int) =~= s@);
    out
}

/// The whitespace-separated words of `s` joined by single spaces.
pub fn normalize_inline(s: &str) -> (r: String)
    ensures
        r@ == normalize_inline_spec(s@),
{
    let cs = chars_of(s);
    let t = normalize_inline_chars(&cs);
    string_of(&t)
}

/// The non-blank lines of `s`, each trimmed, joined by `'\n'`.
pub fn nonblank_lines(s: &Vec<char>) -> (r: Vec<char>)
    ensures
        r@ == nonblank_lines_spec(s@),
{
    let mut out: Vec<char> = Vec::new();
    let mut has_line = false;
    let mut cur: Vec<char> = Vec::new();
    let mut i: usize = 0;
    while i < s.len()
        invariant
            i <= s.len(),
            out@ == join(kept_lines(split_lines(s@.take(i as int)).drop_last()), seq!['\n']),
            has_line == (kept_lines(split_lines(s@.take(i as int)).drop_last()).len() > 0),
            cur@ == split_lines(s@.take(i as int)).last(),
            split_lines(s@.take(i as int)).len() > 0,
        decreases s.len() - i,
    {
        let c = s[i];
        let ghost before = s@.take(i as int);
        let ghost after = s@.take(i + 1);
        proof {
            assert(after.drop_last() =~= before);
            assert(after.last() == c);
        }
        if c == '\n' {
            let t = trim_chars(&cur);
            let ghost done = split_lines(before).drop_last();
            proof {
                assert(split_lines(after).drop_last() =~= split_lines(before));
                assert(split_lines(before) =~= done.push(split_lines(before).last()));
                assert(kept_lines(split_lines(before)) == if t@.len() > 0 {
                    kept_lines(done).push(t@)
                } else {
                    kept_lines(done)
                });
                lemma_join_push(kept_lines(done), t@, seq!['\n']);
            }
            if t.len() > 0 {
                if has_line {
                    out.push('\n');
                }
                append_chars(&mut out, &t);
                has_line = true;
            }
            cur = Vec::new();
            proof {
                assert(split_lines(after).last() =~= cur@);
            }
        } else {
            proof {
                assert(split_lines(after).drop_last() =~= split_lines(before).drop_last());
            }
            cur.push(c);
        }
        i += 1;
    }
    let t = trim_chars(&cur);
    proof {
        let all = split_lines(s@);
        assert(s@.take(s.len() as int) =~= s@);
        assert(all =~= all.drop_last().push(all.last()));
        lemma_join_push(kept_lines(all.drop_last()), t@, seq!['\n']);
    }
    if t.len() > 0 {
        if has_line {
            out.push('\n');
        }
        append_chars(&mut out, &t);
    }
    out
}

/// At most the first `max` characters of `s`.
pub fn clamp_chars(s: &str, max: usize) -> (r: String)
    ensures
        r@ == clamp_chars_spec(s@, max as nat),
{
    let cs = chars_of(s);
    if cs.len() <= max {
        return string_of(&cs);
    }
    let mut out = String::new();
    let mut i: usize = 0;
    while i < max
        invariant
            i <= max < cs.len(),
            out@ == cs@.take(i as int),
        decreases max - i,
    {
        out.push(cs[i]);
        i += 1;
    }
    out
}

/// A text on one line: its only whitespace is single spaces between
/// non-whitespace characters.
pub open spec fn is_one_line(t: Seq<char>) -> bool {
    &&& forall|i: int| 0 <= i < t.len() && is_whitespace(#[trigger] t[i]) ==> t[i] == ' '
    &&& t.len() > 0 ==> !is_whitespace(t[0]) && !is_whitespace(t.last())
    &&& forall|i: int| 0 <= i < t.len() - 1 && #[trigger] t[i] == ' ' ==> t[i + 1] != ' '
}

/// A word: one or more characters, none of them whitespace.
pub open spec fn is_word(w: Seq<char>) -> bool {
    w.len() > 0 && forall|j: int| 0 <= j < w.len() ==> !is_whitespace(#[trigger] w[j])
}

proof fn lemma_words_are_words(s: Seq<char>)
    ensures
        forall|k: int| 0 <= k < words(s).len() ==> is_word(#[trigger] words(s)[k]),
    decreases s.len(),
{
    if s.len() > 0 {
        let before = words(s.drop_last());
        lemma_words_are_words(s.drop_last());
        let c = s.last();
        if is_whitespace(c) {
        } else if s.len() >= 2 && !is_whitespace(s[s.len() - 2]) {
            let t = s.drop_last();
            assert(t.last() == s[s.len() - 2]);
            lemma_words_nonempty(t);
            let w = before.last().push(c);
            assert(is_word(before[before.len() - 1]));
            assert forall|j: int| 0 <= j < w.len() implies !is_whitespace(#[trigger] w[j]) by {
                if j < w.len() - 1 {
                    assert(w[j] == before[before.len() - 1][j]);
                }
            }
            let r = before.drop_last().push(w);
            assert forall|k: int| 0 <= k < r.len() implies is_word(#[trigger] r[k]) by {
                if k < r.len() - 1 {
                    assert(r[k] == before[k]);
                }
            }
        } else {
            let r = before.push(seq![c]);
            assert forall|k: int| 0 <= k < r.len() implies is_word(#[trigger] r[k]) by {
                if k < r.len() - 1 {
                    assert(r[k] == before[k]);
                } else {
                    assert(r[k] == seq![c]);
                }
            }
        }
    }
}

proof fn lemma_join_words_one_line(parts: Seq<Seq<char>>)
    requires
        forall|k: int| 0 <= k < parts.len() ==> is_word(#[trigger] parts[k]),
    ensures
        is_one_line(join(parts, seq![' '])),
        parts.len() > 0 ==> join(parts, seq![' ']).len() > 0,
    decreases parts.len(),
{
    if parts.len() == 1 {
        assert(is_word(parts[0]));
    } else if parts.len() > 1 {
        let a = join(parts.drop_last(), seq![' ']);
        let w = parts.last();
        assert forall|k: int| 0 <= k < parts.drop_last().len() implies is_word(
            #[trigger] parts.drop_last()[k],
        ) by {
            assert(parts.drop_last()[k] == parts[k]);
        }
        lemma_join_words_one_line(parts.drop_last());
        assert(is_word(parts[parts.len() - 1]));
        let t = a + seq![' '] + w;
        assert(join(parts, seq![' ']) == t);
        assert forall|i: int| 0 <= i < t.len() && is_whitespace(#[trigger] t[i]) implies t[i]
            == ' ' by {
            if i < a.len() {
                assert(t[i] == a[i]);
            } else if i > a.len() {
                assert(t[i] == w[i - a.len() - 1]);
            }
        }
        assert(t[0] == a[0]);
        assert(t.last() == w.last());
        assert forall|i: int| 0 <= i < t.len() - 1 && #[trigger] t[i] == ' ' implies t[i + 1]
            != ' ' by {
            if i < a.len() - 1 {
                assert(t[i] == a[i]);
                assert(t[i + 1] == a[i + 1]);
            } else if i == a.len() - 1 {
                assert(t[i] == a.last());
            } else if i == a.len() {
                assert(t[i + 1] == w[0]);
            } else {
                assert(t[i] == w[i - a.len() - 1]);
            }
        }
    }
}

/// The normalized text is on one line, and it is empty only when `s` holds
/// no character other than whitespace.
pub proof fn lemma_normalize_inline_one_line(s: Seq<char>)
    ensures
        is_one_line(normalize_inline_spec(s)),
        normalize_inline_spec(s).len() == 0 ==> forall|i: int|
            0 <= i < s.len() ==> is_whitespace(#[trigger] s[i]),
    decreases s.len(),
{
    lemma_words_are_words(s);
    lemma_join_words_one_line(words(s));
    if s.len() > 0 {
        lemma_normalize_inline_one_line(s.drop_last());
        if !is_whitespace(s.last()) {
            lemma_words_nonempty(s);
        } else {
            assert(words(s) == words(s.drop_last()));
            if normalize_inline_spec(s).len() == 0 {
                assert forall|i: int| 0 <= i < s.len() implies is_whitespace(#[trigger] s[i]) by {
                    if i < s.len() - 1 {
                        assert(s[i] == s.drop_last()[i]);
                    }
                }
            }
        }
    }
}

proof fn lemma_words_append_space(t: Seq<char>)
    ensures
        words(t.push(' ')) == words(t),
{
    assert(t.push(' ').drop_last() =~= t);
    assert(is_whitespace(' '));
}

proof fn lemma_words_append_word(t: Seq<char>, u: Seq<char>)
    requires
        t.len() == 0 || is_whitespace(t.last()),
        is_word(u),
    ensures
        words(t + u) == words(t).push(u),
    decreases u.len(),
{
    let s = t + u;
    let c = u.last();
    assert(s.last() == c);
    assert(!is_whitespace(c));
    if u.len() == 1 {
        assert(s.drop_last() =~= t);
        if s.len() >= 2 {
            assert(s[s.len() - 2] == t.last());
        }
        assert(u =~= seq![c]);
    } else {
        let v = u.drop_last();
        assert forall|j: int| 0 <= j < v.len() implies !is_whitespace(#[trigger] v[j]) by {
            assert(v[j] == u[j]);
        }
        lemma_words_append_word(t, v);
        assert(s.drop_last() =~= t + v);
        assert(s[s.len() - 2] == u[u.len() - 2]);
        assert(words(t).push(v).drop_last() =~= words(t));
        assert(v.push(c) =~= u);
    }
}

proof fn lemma_words_of_join(parts: Seq<Seq<char>>)
    requires
        forall|k: int| 0 <= k < parts.len() ==> is_word(#[trigger] parts[k]),
    ensures
        words(join(parts, seq![' '])) == parts,
    decreases parts.len(),
{
    if parts.len() == 0 {
    } else if parts.len() == 1 {
        assert(is_word(parts[0]));
        lemma_words_append_word(Seq::empty(), parts[0]);
        assert(Seq::<char>::empty() + parts[0] =~= parts[0]);
        assert(Seq::<Seq<char>>::empty().push(parts[0]) =~= parts);
    } else {
        let q = parts.drop_last();
        assert forall|k: int| 0 <= k < q.len() implies is_word(#[trigger] q[k]) by {
            assert(q[k] == parts[k]);
        }
        lemma_words_of_join(q);
        let a = join(q, seq![' ']);
        lemma_words_append_space(a);
        assert(a + seq![' '] =~= a.push(' '));
        assert(is_word(parts[parts.len() - 1]));
        lemma_words_append_word(a.push(' '), parts.last());
        assert(a + seq![' '] + parts.last() =~= a.push(' ') + parts.last());
        assert(q.push(parts.last()) =~= parts);
    }
}

/// Normalizing a text that is already normalized leaves it as it is.
pub proof fn lemma_normalize_inline_idempotent(s: Seq<char>)
    ensures
        normalize_inline_spec(normalize_inline_spec(s)) == normalize_inline_spec(s),
{
    lemma_words_are_words(s);
    lemma_words_of_join(words(s));
}

/// Normalizing keeps the words: the maximal runs of non-whitespace
/// characters of the result are exactly those of the input, in order, and
/// each is a run with no whitespace in it.
pub proof fn lemma_normalize_inline_words(s: Seq<char>)
    ensures
        words(normalize_inline_spec(s)) == words(s),
        forall|k: int| 0 <= k < words(s).len() ==> is_word(#[trigger] words(s)[k]),
{
    lemma_words_are_words(s);
    lemma_words_of_join(words(s));
}

proof fn lemma_trim_start_at(s: Seq<char>) -> (i: int)
    ensures
        0 <= i <= s.len(),
        trim_start(s) == s.subrange(i, s.len() as int),
        forall|k: int| 0 <= k < i ==> is_whitespace(#[trigger] s[k]),
        i == s.len() || !is_whitespace(s[i]),
    decreases s.len(),
{
    if s.len() > 0 && is_whitespace(s[0]) {
        let t = s.drop_first();
        let j = lemma_trim_start_at(t);
        assert(t.subrange(j, t.len() as int) =~= s.subrange(j + 1, s.len() as int));
        assert forall|k: int| 0 <= k < j + 1 implies is_whitespace(#[trigger] s[k]) by {
            if k > 0 {
                assert(s[k] == t[k - 1]);
            }
        }
        j + 1
    } else {
        assert(s.subrange(0, s.len() as int) =~= s);
        0
    }
}

proof fn lemma_trim_end_at(s: Seq<char>) -> (j: int)
    ensures
        0 <= j <= s.len(),
        trim_end(s) == s.subrange(0, j),
        forall|k: int| j <= k < s.len() ==> is_whitespace(#[trigger] s[k]),
        j == 0 || !is_whitespace(s[j - 1]),
    decreases s.len(),
{
    if s.len() > 0 && is_whitespace(s.last()) {
        let t = s.drop_last();
        let j = lemma_trim_end_at(t);
        assert(t.subrange(0, j) =~= s.subrange(0, j));
        assert forall|k: int| j <= k < s.len() implies is_whitespace(#[trigger] s[k]) by {
            if k < s.len() - 1 {
                assert(s[k] == t[k]);
            }
        }
        j
    } else {
        assert(s.subrange(0, s.len() as int) =~= s);
        s.len() as int
    }
}

/// Trimming removes exactly the leading and trailing whitespace: the result
/// is the part of the text between a run of whitespace at its start and a run
/// of whitespace at its end, and it neither starts nor ends with whitespace.
pub proof fn lemma_trim_removes_edges(s: Seq<char>)
    ensures
        exists|a: int, b: int|
            0 <= a <= b <= s.len() && trim(s) == s.subrange(a, b) && (forall|k: int|
                0 <= k < a ==> is_whitespace(#[trigger] s[k])) && (forall|k: int|
                b <= k < s.len() ==> is_whitespace(#[trigger] s[k])),
        trim(s).len() > 0 ==> !is_whitespace(trim(s)[0]) && !is_whitespace(
            trim(s)[trim(s).len() - 1],
        ),
        (forall|k: int| 0 <= k < s.len() ==> !is_whitespace(#[trigger] s[k])) ==> trim(s) == s,
{
    let a = lemma_trim_start_at(s);
    let u = s.subrange(a, s.len() as int);
    let j = lemma_trim_end_at(u);
    assert(u.subrange(0, j) =~= s.subrange(a, a + j));
    assert forall|k: int| a + j <= k < s.len() implies is_whitespace(#[trigger] s[k]) by {
        assert(s[k] == u[k - a]);
    }
    if j > 0 {
        assert(trim(s)[0] == u[0]);
        assert(u[0] == s[a]);
    }
    if forall|k: int| 0 <= k < s.len() ==> !is_whitespace(#[trigger] s[k]) {
        assert(a == 0);
        assert(u =~= s);
        if j < u.len() {
            assert(is_whitespace(s[j]));
        }
        assert(s.subrange(0, s.len() as int) =~= s);
    }
    assert(0 <= a <= a + j <= s.len() && trim(s) == s.subrange(a, a + j));
}

/// Cutting a text to `max` characters keeps its first `max` characters: the
/// result is a prefix of the text, as long as the text or `max`, whichever
/// is shorter.
pub proof fn lemma_clamp_chars_prefix(s: Seq<char>, max: nat)
    ensures
        clamp_chars_spec(s, max).len() == if s.len() <= max {
            s.len()
        } else {
            max
        },
        forall|k: int|
            0 <= k < clamp_chars_spec(s, max).len() ==> #[trigger] clamp_chars_spec(s, max)[k]
                == s[k],
{
}

} // verus!

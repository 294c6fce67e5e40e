//! How settings are kept in the key-value settings table: one decimal text
//! per setting, read back with defaults for missing keys.
use vstd::prelude::*;
use crate::error::AppError;
use crate::models::{
    clamp_spec, default_settings, lemma_default_settings_in_range, lemma_normalize_settings,
    normalize_settings, normalize_settings_spec, AppSettings,
};
use crate::number::{decimal, decimal_i64, lemma_parse_decimal, parse_i64, parse_i64_spec};
use crate::text::{chars_of, string_of, text_is};

verus! {

/// The table key of each setting.
pub const KEY_WINDOW_WIDTH: &'static str = "window_width";

pub const KEY_WINDOW_HEIGHT: &'static str = "window_height";

pub const KEY_OPACITY: &'static str = "opacity";

pub const KEY_MARGIN_TOP: &'static str = "margin_top";

pub const KEY_MARGIN_RIGHT: &'static str = "margin_right";

pub const KEY_GLOBAL_REFRESH_INTERVAL: &'static str = "global_refresh_interval_minutes";

pub const KEY_MAX_ITEMS: &'static str = "max_items";

/// The table keys of the settings, in order.
pub open spec fn setting_keys() -> Seq<Seq<char>> {
    seq![
        "window_width"@,
        "window_height"@,
        "opacity"@,
        "margin_top"@,
        "margin_right"@,
        "global_refresh_interval_minutes"@,
        "max_items"@,
    ]
}

/// The values of the settings, in the order of their keys.
pub open spec fn setting_values(s: AppSettings) -> Seq<i64> {
    seq![
        s.window_width,
        s.window_height,
        s.opacity,
        s.margin_top,
        s.margin_right,
        s.global_refresh_interval_minutes,
        s.max_items,
    ]
}

/// The table rows that hold `s`: each key with the decimal text of its value.
pub open spec fn setting_entries_spec(s: AppSettings) -> Seq<(Seq<char>, Seq<char>)> {
    Seq::new(7, |i: int| (setting_keys()[i], decimal(setting_values(s)[i] as int)))
}

/// The text of a table row.
pub open spec fn entries_view(entries: Seq<(String, String)>) -> Seq<(Seq<char>, Seq<char>)> {
    entries.map_values(|e: (String, String)| (e.0@, e.1@))
}

/// The value of the first row with key `key`.
pub open spec fn lookup(entries: Seq<(Seq<char>, Seq<char>)>, key: Seq<char>) -> Option<Seq<char>>
    decreases entries.len(),
{
    if entries.len() == 0 {
        None
    } else if entries[0].0 == key {
        Some(entries[0].1)
    } else {
        lookup(entries.drop_first(), key)
    }
}

/// The stored value of `key`, or `default` when the key is missing; `None`
/// when the stored text is not a decimal `i64`.
pub open spec fn stored_or_default(
    entries: Seq<(Seq<char>, Seq<char>)>,
    key: Seq<char>,
    default: i64,
) -> Option<i64> {
    match lookup(entries, key) {
        None => Some(default),
        Some(text) => parse_i64_spec(text),
    }
}

/// The settings the table rows hold, normalized, with defaults for missing
/// keys; `None` when a stored value is not a decimal `i64`.
pub open spec fn settings_from_entries_spec(entries: Seq<(Seq<char>, Seq<char>)>) -> Option<
    AppSettings,
> {
    let d = default_settings();
    let w = stored_or_default(entries, "window_width"@, d.window_width);
    let h = stored_or_default(entries, "window_height"@, d.window_height);
    let o = stored_or_default(entries, "opacity"@, d.opacity);
    let t = stored_or_default(entries, "margin_top"@, d.margin_top);
    let r = stored_or_default(entries, "margin_right"@, d.margin_right);
    let g = stored_or_default(
        entries,
        "global_refresh_interval_minutes"@,
        d.global_refresh_interval_minutes,
    );
    let m = stored_or_default(entries, "max_items"@, d.max_items);
    if w is Some && h is Some && o is Some && t is Some && r is Some && g is Some && m is Some {
        Some(
            normalize_settings_spec(
                AppSettings {
                    window_width: w->0,
                    window_height: h->0,
                    opacity: o->0,
                    margin_top: t->0,
                    margin_right: r->0,
                    global_refresh_interval_minutes: g->0,
                    max_items: m->0,
                },
            ),
        )
    } else {
        None
    }
}

fn entry(key: &str, value: i64) -> (r: (String, String))
    ensures
        r.0@ == key@,
        r.1@ == decimal(value as int),
{
    (String::from_str(key), string_of(&decimal_i64(value)))
}

/// The table rows that hold `settings`, one per key, in key order.
pub fn setting_entries(settings: &AppSettings) -> (r: Vec<(String, String)>)
    ensures
        entries_view(r@) == setting_entries_spec(*settings),
{
    let mut out: Vec<(String, String)> = Vec::new();
    out.push(entry(KEY_WINDOW_WIDTH, settings.window_width));
    out.push(entry(KEY_WINDOW_HEIGHT, settings.window_height));
    out.push(entry(KEY_OPACITY, settings.opacity));
    out.push(entry(KEY_MARGIN_TOP, settings.margin_top));
    out.push(entry(KEY_MARGIN_RIGHT, settings.margin_right));
    out.push(entry(KEY_GLOBAL_REFRESH_INTERVAL, settings.global_refresh_interval_minutes));
    out.push(entry(KEY_MAX_ITEMS, settings.max_items));
    assert(entries_view(out@) =~= setting_entries_spec(*settings));
    out
}

proof fn lemma_lookup_skip(entries: Seq<(Seq<char>, Seq<char>)>, key: Seq<char>, i: int)
    requires
        0 <= i <= entries.len(),
        forall|k: int| 0 <= k < i ==> (#[trigger] entries[k]).0 != key,
    ensures
        lookup(entries, key) == lookup(entries.skip(i), key),
    decreases i,
{
    if i > 0 {
        let t = entries.drop_first();
        assert forall|k: int| 0 <= k < i - 1 implies (#[trigger] t[k]).0 != key by {
            assert(t[k] == entries[k + 1]);
        }
        lemma_lookup_skip(t, key, i - 1);
        assert(t.skip(i - 1) =~= entries.skip(i));
    } else {
        assert(entries.skip(0) =~= entries);
    }
}

/// The stored value of `key`, or `default` when the key is missing.
fn stored_value(entries: &Vec<(String, String)>, key: &str, default: i64) -> (r: Result<
    i64,
    AppError,
>)
    ensures
        match stored_or_default(entries_view(entries@), key@, default) {
            Some(v) => r == Ok::<i64, AppError>(v),
            None => r == Err::<i64, AppError>(AppError::InvalidNumericSetting),
        },
{
    let ghost view = entries_view(entries@);
    let mut i: usize = 0;
    while i < entries.len()
        invariant
            i <= entries.len(),
            view == entries_view(entries@),
            forall|k: int| 0 <= k < i ==> (#[trigger] view[k]).0 != key@,
        decreases entries.len() - i,
    {
        assert(view[i as int] == (entries@[i as int].0@, entries@[i as int].1@));
        if text_is(entries[i].0.as_str(), key) {
            proof {
                lemma_lookup_skip(view, key@, i as int);
                assert(view.skip(i as int)[0] == view[i as int]);
            }
            let cs = chars_of(entries[i].1.as_str());
            return match parse_i64(&cs) {
                Some(v) => Ok(v),
                None => Err(AppError::InvalidNumericSetting),
            };
        }
        i += 1;
    }
    proof {
        lemma_lookup_skip(view, key@, entries.len() as int);
    }
    Ok(default)
}

/// The settings that the table rows hold, normalized, with the default for
/// each missing key. Fails when a stored value is not a decimal `i64`.
pub fn settings_from_entries(entries: &Vec<(String, String)>) -> (r: Result<AppSettings, AppError>)
    ensures
        match settings_from_entries_spec(entries_view(entries@)) {
            Some(s) => r == Ok::<AppSettings, AppError>(s),
            None => r == Err::<AppSettings, AppError>(AppError::InvalidNumericSetting),
        },
{
    let d = AppSettings::default();
    let w = stored_value(entries, KEY_WINDOW_WIDTH, d.window_width)?;
    let h = stored_value(entries, KEY_WINDOW_HEIGHT, d.window_height)?;
    let o = stored_value(entries, KEY_OPACITY, d.opacity)?;
    let t = stored_value(entries, KEY_MARGIN_TOP, d.margin_top)?;
    let r = stored_value(entries, KEY_MARGIN_RIGHT, d.margin_right)?;
    let g = stored_value(entries, KEY_GLOBAL_REFRESH_INTERVAL, d.global_refresh_interval_minutes)?;
    let m = stored_value(entries, KEY_MAX_ITEMS, d.max_items)?;
    Ok(
        normalize_settings(
            AppSettings {
                window_width: w,
                window_height: h,
                opacity: o,
                margin_top: t,
                margin_right: r,
                global_refresh_interval_minutes: g,
                max_items: m,
            },
        ),
    )
}

/// Reading back the rows written for `s` finds each key's own value.
proof fn lemma_lookup_entries(s: AppSettings, i: int)
    requires
        0 <= i < 7,
    ensures
        lookup(setting_entries_spec(s), setting_keys()[i]) == Some(
            decimal(setting_values(s)[i] as int),
        ),
{
    reveal_strlit("window_width");
    reveal_strlit("window_height");
    reveal_strlit("opacity");
    reveal_strlit("margin_top");
    reveal_strlit("margin_right");
    reveal_strlit("global_refresh_interval_minutes");
    reveal_strlit("max_items");
    let e = setting_entries_spec(s);
    let keys = setting_keys();
    assert forall|k: int| 0 <= k < i implies (#[trigger] e[k]).0 != keys[i] by {
        assert(e[k].0 == keys[k]);
        if keys[k].len() == keys[i].len() {
            assert(keys[k][0] != keys[i][0]);
        }
    }
    lemma_lookup_skip(e, keys[i], i);
    assert(e.skip(i)[0] == e[i]);
}

/// Saving settings and reading them back gives the saved settings, normalized:
/// reading the rows written for the normalized settings yields exactly them.
pub proof fn lemma_settings_round_trip(s: AppSettings)
    ensures
        settings_from_entries_spec(setting_entries_spec(normalize_settings_spec(s))) == Some(
            normalize_settings_spec(s),
        ),
{
    let n = normalize_settings_spec(s);
    lemma_normalize_settings(s);
    lemma_lookup_entries(n, 0);
    lemma_lookup_entries(n, 1);
    lemma_lookup_entries(n, 2);
    lemma_lookup_entries(n, 3);
    lemma_lookup_entries(n, 4);
    lemma_lookup_entries(n, 5);
    lemma_lookup_entries(n, 6);
    lemma_parse_decimal(n.window_width);
    lemma_parse_decimal(n.window_height);
    lemma_parse_decimal(n.opacity);
    lemma_parse_decimal(n.margin_top);
    lemma_parse_decimal(n.margin_right);
    lemma_parse_decimal(n.global_refresh_interval_minutes);
    lemma_parse_decimal(n.max_items);
    assert(setting_keys()[0] == "window_width"@);
    assert(setting_keys()[1] == "window_height"@);
    assert(setting_keys()[2] == "opacity"@);
    assert(setting_keys()[3] == "margin_top"@);
    assert(setting_keys()[4] == "margin_right"@);
    assert(setting_keys()[5] == "global_refresh_interval_minutes"@);
    assert(setting_keys()[6] == "max_items"@);
}

/// No two rows share a key.
pub open spec fn distinct_keys(rows: Seq<(Seq<char>, Seq<char>)>) -> bool {
    forall|i: int, j: int|
        0 <= i < j < rows.len() ==> (#[trigger] rows[i]).0 != (#[trigger] rows[j]).0
}

/// Where no two rows share a key, a key's lookup finds exactly the row that
/// holds it.
proof fn lemma_lookup_distinct(rows: Seq<(Seq<char>, Seq<char>)>, key: Seq<char>)
    requires
        distinct_keys(rows),
    ensures
        forall|v: Seq<char>| lookup(rows, key) == Some(v) <==> rows.contains((key, v)),
    decreases rows.len(),
{
    if rows.len() > 0 {
        let t = rows.drop_first();
        assert forall|i: int, j: int| 0 <= i < j < t.len() implies (#[trigger] t[i]).0 != (
        #[trigger] t[j]).0 by {
            assert(t[i] == rows[i + 1] && t[j] == rows[j + 1]);
        }
        lemma_lookup_distinct(t, key);
        assert forall|v: Seq<char>| lookup(rows, key) == Some(v) <==> rows.contains((key, v)) by {
            if rows.contains((key, v)) {
                let i = choose|i: int| 0 <= i < rows.len() && rows[i] == (key, v);
                if i > 0 {
                    assert(t[i - 1] == rows[i]);
                    assert(t.contains((key, v)));
                    assert(rows[0].0 != rows[i].0);
                    assert(lookup(t, key) == Some(v));
                }
            }
            if lookup(rows, key) == Some(v) {
                if rows[0].0 == key {
                    assert(rows[0] == (key, v));
                } else {
                    assert(lookup(t, key) == Some(v));
                    assert(t.contains((key, v)));
                    let j = choose|j: int| 0 <= j < t.len() && t[j] == (key, v);
                    assert(rows[j + 1] == t[j]);
                }
            }
        }
    }
}

/// The settings read from the table do not depend on the order in which its
/// rows come back: two row lists with the same rows, each with no key twice,
/// read as the same settings (or fail alike).
pub proof fn lemma_settings_rows_any_order(
    a: Seq<(Seq<char>, Seq<char>)>,
    b: Seq<(Seq<char>, Seq<char>)>,
)
    requires
        distinct_keys(a),
        distinct_keys(b),
        forall|row: (Seq<char>, Seq<char>)| a.contains(row) <==> b.contains(row),
    ensures
        settings_from_entries_spec(a) == settings_from_entries_spec(b),
{
    assert forall|key: Seq<char>| lookup(a, key) == lookup(b, key) by {
        lemma_lookup_distinct(a, key);
        lemma_lookup_distinct(b, key);
        if let Some(v) = lookup(a, key) {
            assert(b.contains((key, v)));
        } else if let Some(v) = lookup(b, key) {
            assert(a.contains((key, v)));
        }
    }
}

/// Saving settings and reading the rows back in any order gives the saved
/// settings, normalized.
pub proof fn lemma_settings_round_trip_any_order(s: AppSettings, rows: Seq<(Seq<char>, Seq<char>)>)
    requires
        distinct_keys(rows),
        forall|row: (Seq<char>, Seq<char>)|
            rows.contains(row) <==> setting_entries_spec(normalize_settings_spec(s)).contains(row),
    ensures
        settings_from_entries_spec(rows) == Some(normalize_settings_spec(s)),
{
    let e = setting_entries_spec(normalize_settings_spec(s));
    reveal_strlit("window_width");
    reveal_strlit("window_height");
    reveal_strlit("opacity");
    reveal_strlit("margin_top");
    reveal_strlit("margin_right");
    reveal_strlit("global_refresh_interval_minutes");
    reveal_strlit("max_items");
    let keys = setting_keys();
    assert forall|i: int, j: int| 0 <= i < j < e.len() implies (#[trigger] e[i]).0 != (
    #[trigger] e[j]).0 by {
        assert(e[i].0 == keys[i] && e[j].0 == keys[j]);
        if keys[i].len() == keys[j].len() {
            assert(keys[i][0] != keys[j][0]);
        }
    }
    lemma_settings_rows_any_order(rows, e);
    lemma_settings_round_trip(s);
}

/// A table without any setting's key reads as the default settings, and a
/// key that is missing reads as its default while the others are read from
/// their rows.
pub proof fn lemma_missing_settings_are_defaults(rows: Seq<(Seq<char>, Seq<char>)>)
    requires
        forall|i: int, k: int|
            0 <= i < rows.len() && 0 <= k < 7 ==> (#[trigger] rows[i]).0 != #[trigger] setting_keys()[k],
    ensures
        settings_from_entries_spec(rows) == Some(default_settings()),
{
    reveal_strlit("window_width");
    reveal_strlit("window_height");
    reveal_strlit("opacity");
    reveal_strlit("margin_top");
    reveal_strlit("margin_right");
    reveal_strlit("global_refresh_interval_minutes");
    reveal_strlit("max_items");
    let keys = setting_keys();
    assert forall|k: int| 0 <= k < 7 implies lookup(rows, #[trigger] keys[k]) is None by {
        assert forall|i: int| 0 <= i < rows.len() implies (#[trigger] rows[i]).0 != keys[k] by {
            assert(rows[i].0 != setting_keys()[k]);
        }
        lemma_lookup_skip(rows, keys[k], rows.len() as int);
        assert(rows.skip(rows.len() as int).len() == 0);
    }
    assert(keys[0] == "window_width"@);
    assert(keys[1] == "window_height"@);
    assert(keys[2] == "opacity"@);
    assert(keys[3] == "margin_top"@);
    assert(keys[4] == "margin_right"@);
    assert(keys[5] == "global_refresh_interval_minutes"@);
    assert(keys[6] == "max_items"@);
    lemma_default_settings_in_range();
}

/// A stored value that is the decimal text of a number is read as that
/// number, brought into its range: the rows hold the window width `w` (and
/// no other row has that key) ==> the settings read have the width `w`
/// clamped to 360 to 900.
pub proof fn lemma_stored_width_is_read(rows: Seq<(Seq<char>, Seq<char>)>, w: i64)
    requires
        rows.len() > 0,
        rows[0] == ("window_width"@, decimal(w as int)),
        settings_from_entries_spec(rows) is Some,
    ensures
        settings_from_entries_spec(rows)->0.window_width == clamp_spec(w as int, 360, 900),
{
    lemma_parse_decimal(w);
}

} // verus!

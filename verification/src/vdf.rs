//! The platform's text files of keys and values in quotes.
//!
//! A value is found by its key: the key in quotes, white space, and the
//! value in quotes.

use crate::achievement_scanner::{stat_records, StatRecord, SteamAchievement};
use crate::ini::{digits_end, find_digits_end, skip_space, skip_whitespace};
use crate::text::{
    chars_of, decimal_value, is_digit, matches_at, occurs_at, parse_decimal, slice, string_of,
};
use vstd::prelude::*;

verus! {

/// The place of the first `"` at or after `from`; the length of the text
/// where there is none.
pub open spec fn quote_from(text: Seq<char>, from: int) -> int
    decreases text.len() - from,
{
    if from < 0 || from >= text.len() {
        text.len() as int
    } else if text[from] == '"' {
        from
    } else {
        quote_from(text, from + 1)
    }
}

/// Where the value of a key begins and ends, if the key in quotes stands at
/// `p`, followed by `min_space` characters of white space or more and a
/// value of one character or more in quotes. With `digits`, the value is
/// made of digits.
pub open spec fn value_at(text: Seq<char>, key: Seq<char>, p: int, min_space: int, digits: bool)
    -> Option<(int, int)> {
    if 0 <= p < text.len() && text[p] == '"' && occurs_at(text, key, p + 1) && p + 1 + key.len()
        < text.len() && text[p + 1 + key.len()] == '"' {
        let after_key = p + 2 + key.len();
        let open = skip_space(text, after_key);
        if open - after_key >= min_space && open < text.len() && text[open] == '"' {
            let start = open + 1;
            let end = if digits {
                digits_end(text, start)
            } else {
                quote_from(text, start)
            };
            if end > start && end < text.len() && text[end] == '"' {
                Some((start, end))
            } else {
                None
            }
        } else {
            None
        }
    } else {
        None
    }
}

/// The first value of a key at or after `from`.
pub open spec fn first_value(
    text: Seq<char>,
    key: Seq<char>,
    min_space: int,
    digits: bool,
    from: int,
) -> Option<Seq<char>>
    decreases text.len() - from,
{
    if from < 0 || from >= text.len() {
        None
    } else {
        match value_at(text, key, from, min_space, digits) {
            Some((start, end)) => Some(text.subrange(start, end)),
            None => first_value(text, key, min_space, digits, from + 1),
        }
    }
}

/// All values of a key at or after `from`, in order. After a value, the next
/// one is looked for behind its closing quote.
pub open spec fn all_values(text: Seq<char>, key: Seq<char>, min_space: int, from: int) -> Seq<
    Seq<char>,
>
    decreases text.len() - from,
{
    if from < 0 || from >= text.len() {
        Seq::empty()
    } else {
        match value_at(text, key, from, min_space, false) {
            Some((start, end)) => if end + 1 > from {
                seq![text.subrange(start, end)] + all_values(text, key, min_space, end + 1)
            } else {
                Seq::empty()
            },
            None => all_values(text, key, min_space, from + 1),
        }
    }
}

/// The place of the first `"` at or after `from`.
pub fn find_quote(text: &Vec<char>, from: usize) -> (r: usize)
    requires
        from <= text@.len(),
    ensures
        r == quote_from(text@, from as int),
        from <= r <= text@.len(),
{
    let mut i: usize = from;
    while i < text.len() && text[i] != '"'
        invariant
            from <= i <= text@.len(),
            quote_from(text@, from as int) == quote_from(text@, i as int),
        decreases text@.len() - i,
    {
        i = i + 1;
    }
    i
}

/// Where the value of a key begins and ends, if the key stands at `p`.
pub fn find_value_at(text: &Vec<char>, key: &Vec<char>, p: usize, min_space: usize, digits: bool)
    -> (r: Option<(usize, usize)>)
    ensures
        match r {
            Some((start, end)) => value_at(text@, key@, p as int, min_space as int, digits) == Some(
                (start as int, end as int),
            ) && p < start < end < text@.len(),
            None => value_at(text@, key@, p as int, min_space as int, digits) is None,
        },
{
    let len = text.len();
    if p >= len || text[p] != '"' {
        return None;
    }
    if !matches_at(text, key, p + 1) {
        return None;
    }
    let close = p + 1 + key.len();
    if close >= len || text[close] != '"' {
        return None;
    }
    let after_key = close + 1;
    let open = skip_whitespace(text, after_key);
    if open - after_key < min_space || open >= len || text[open] != '"' {
        return None;
    }
    let start = open + 1;
    let end = if digits {
        find_digits_end(text, start)
    } else {
        find_quote(text, start)
    };
    if end > start && end < len && text[end] == '"' {
        Some((start, end))
    } else {
        None
    }
}

/// The first value of a key.
pub fn find_first_value(text: &Vec<char>, key: &Vec<char>, min_space: usize, digits: bool) -> (r:
    Option<Vec<char>>)
    ensures
        match r {
            Some(v) => first_value(text@, key@, min_space as int, digits, 0) == Some(v@) && (digits
                ==> forall|i: int| 0 <= i < v@.len() ==> is_digit(#[trigger] v@[i])),
            None => first_value(text@, key@, min_space as int, digits, 0) is None,
        },
{
    let mut p: usize = 0;
    while p < text.len()
        invariant
            p <= text@.len(),
            first_value(text@, key@, min_space as int, digits, 0) == first_value(
                text@,
                key@,
                min_space as int,
                digits,
                p as int,
            ),
        decreases text@.len() - p,
    {
        match find_value_at(text, key, p, min_space, digits) {
            Some((start, end)) => {
                proof {
                    if digits {
                        lemma_digits_end(text@, start as int);
                    }
                }
                return Some(slice(text, start, end));
            },
            None => {},
        }
        p = p + 1;
    }
    None
}

/// The characters before `digits_end` are digits.
pub proof fn lemma_digits_end(s: Seq<char>, from: int)
    requires
        0 <= from <= s.len(),
    ensures
        from <= digits_end(s, from) <= s.len(),
        forall|i: int| from <= i < digits_end(s, from) ==> is_digit(#[trigger] s[i]),
    decreases s.len() - from,
{
    if from < s.len() && is_digit(s[from]) {
        lemma_digits_end(s, from + 1);
    }
}

/// The views of a list of character vectors.
pub open spec fn value_views(list: Seq<Vec<char>>) -> Seq<Seq<char>> {
    Seq::new(list.len(), |i: int| list[i]@)
}

/// All values of a key, in order.
pub fn find_all_values(text: &Vec<char>, key: &Vec<char>, min_space: usize) -> (r: Vec<Vec<char>>)
    ensures
        value_views(r@) == all_values(text@, key@, min_space as int, 0),
{
    let mut out: Vec<Vec<char>> = Vec::new();
    let mut p: usize = 0;
    while p < text.len()
        invariant
            p <= text@.len(),
            all_values(text@, key@, min_space as int, 0) == value_views(out@) + all_values(
                text@,
                key@,
                min_space as int,
                p as int,
            ),
        decreases text@.len() - p,
    {
        match find_value_at(text, key, p, min_space, false) {
            Some((start, end)) => {
                let ghost before = value_views(out@);
                let v = slice(text, start, end);
                out.push(v);
                assert(before + (seq![text@.subrange(start as int, end as int)] + all_values(
                    text@,
                    key@,
                    min_space as int,
                    end + 1,
                )) == before.push(text@.subrange(start as int, end as int)) + all_values(
                    text@,
                    key@,
                    min_space as int,
                    end + 1,
                ));
                p = end + 1;
            },
            None => {
                p = p + 1;
            },
        }
    }
    out
}

/// A path with every pair of backslashes taken as one, from `from` on.
pub open spec fn unescaped(s: Seq<char>, from: int) -> Seq<char>
    decreases s.len() - from,
{
    if from < 0 || from >= s.len() {
        Seq::empty()
    } else if from + 1 < s.len() && s[from] == '\\' && s[from + 1] == '\\' {
        seq!['\\'] + unescaped(s, from + 2)
    } else {
        seq![s[from]] + unescaped(s, from + 1)
    }
}

/// A path with every pair of backslashes taken as one.
pub fn unescape(s: &Vec<char>) -> (r: Vec<char>)
    ensures
        r@ == unescaped(s@, 0),
{
    let mut out: Vec<char> = Vec::new();
    let mut i: usize = 0;
    let len = s.len();
    while i < len
        invariant
            i <= s@.len(),
            len == s@.len(),
            unescaped(s@, 0) == out@ + unescaped(s@, i as int),
        decreases s@.len() - i,
    {
        let ghost before = out@;
        if len - i > 1 && s[i] == '\\' && s[i + 1] == '\\' {
            out.push('\\');
            assert(before + (seq!['\\'] + unescaped(s@, i + 2)) == before.push('\\') + unescaped(
                s@,
                i + 2,
            ));
            i = i + 2;
        } else {
            out.push(s[i]);
            assert(before + (seq![s@[i as int]] + unescaped(s@, i + 1)) == before.push(s@[i as int])
                + unescaped(s@, i + 1));
            i = i + 1;
        }
    }
    out
}

/// What the manifest of an installed game says, as a mathematical value.
pub struct ManifestRecord {
    pub app_id: u32,
    pub name: Seq<char>,
    pub installdir: Seq<char>,
}

/// What the manifest of an installed game says: its id, its name, and the
/// directory it is installed in.
#[derive(Debug, Clone)]
pub struct AppManifest {
    pub app_id: u32,
    pub name: String,
    pub installdir: String,
}

impl View for AppManifest {
    type V = ManifestRecord;

    open spec fn view(&self) -> ManifestRecord {
        ManifestRecord { app_id: self.app_id, name: self.name@, installdir: self.installdir@ }
    }
}

/// The id that a manifest gives: the first value of `appid` made of digits,
/// where it fits 32 bits.
pub open spec fn manifest_id(text: Seq<char>) -> Option<u32> {
    match first_value(text, "appid"@, 1, true, 0) {
        Some(d) => if decimal_value(d) <= u32::MAX {
            Some(decimal_value(d) as u32)
        } else {
            None
        },
        None => None,
    }
}

/// What a manifest says; `None` where it lacks an id, a name or a directory.
pub open spec fn manifest_of(text: Seq<char>) -> Option<ManifestRecord> {
    match (
        manifest_id(text),
        first_value(text, "name"@, 1, false, 0),
        first_value(text, "installdir"@, 1, false, 0),
    ) {
        (Some(app_id), Some(name), Some(installdir)) => Some(
            ManifestRecord { app_id, name, installdir },
        ),
        _ => None,
    }
}

/// The name of a game from its manifest; `App` and the id where the manifest
/// is missing or gives no name.
pub open spec fn game_name_of(manifest: Option<Seq<char>>, app_id: u32) -> Seq<char> {
    let fallback = "App "@ + crate::paths::id_text(app_id);
    match manifest {
        Some(text) => match first_value(text, "name"@, 0, false, 0) {
            Some(name) => name,
            None => fallback,
        },
        None => fallback,
    }
}

/// The library directories that the platform's list of libraries names, in
/// order.
pub open spec fn library_paths(text: Seq<char>) -> Seq<Seq<char>> {
    let found = all_values(text, "path"@, 1, 0);
    Seq::new(found.len(), |i: int| unescaped(found[i], 0))
}

/// The id that a manifest gives.
fn read_manifest_id(text: &Vec<char>) -> (r: Option<u32>)
    ensures
        r == manifest_id(text@),
{
    match find_first_value(text, &chars_of("appid"), 1, true) {
        Some(d) => match parse_decimal(&d, u32::MAX as u64) {
            Some(n) => Some(n as u32),
            None => None,
        },
        None => None,
    }
}

/// What the manifest of an installed game says.
pub fn parse_appmanifest(contents: &str) -> (r: Option<AppManifest>)
    ensures
        match r {
            Some(m) => manifest_of(contents@) == Some(m@),
            None => manifest_of(contents@) is None,
        },
{
    let text = chars_of(contents);
    let app_id = match read_manifest_id(&text) {
        Some(id) => id,
        None => {
            return None;
        },
    };
    let name = match find_first_value(&text, &chars_of("name"), 1, false) {
        Some(n) => n,
        None => {
            return None;
        },
    };
    let installdir = match find_first_value(&text, &chars_of("installdir"), 1, false) {
        Some(d) => d,
        None => {
            return None;
        },
    };
    Some(AppManifest { app_id, name: string_of(&name), installdir: string_of(&installdir) })
}

/// The id and the name that a manifest gives; `None` where it lacks one of
/// them.
pub open spec fn manifest_title(text: Seq<char>) -> Option<(u32, Seq<char>)> {
    match (manifest_id(text), first_value(text, "name"@, 1, false, 0)) {
        (Some(app_id), Some(name)) => Some((app_id, name)),
        _ => None,
    }
}

/// The id and the name that the manifest of an installed game gives.
pub fn parse_appmanifest_basic(contents: &str) -> (r: Option<(u32, String)>)
    ensures
        match r {
            Some(found) => manifest_title(contents@) == Some((found.0, found.1@)),
            None => manifest_title(contents@) is None,
        },
{
    let text = chars_of(contents);
    let app_id = match read_manifest_id(&text) {
        Some(id) => id,
        None => {
            return None;
        },
    };
    match find_first_value(&text, &chars_of("name"), 1, false) {
        Some(name) => Some((app_id, string_of(&name))),
        None => None,
    }
}

/// The name of a game from its manifest.
pub fn get_game_name(manifest: Option<&str>, app_id: u32) -> (r: String)
    ensures
        r@ == game_name_of(
            match manifest {
                Some(m) => Some(m@),
                None => None,
            },
            app_id,
        ),
{
    let found = match manifest {
        Some(contents) => find_first_value(&chars_of(contents), &chars_of("name"), 0, false),
        None => None,
    };
    match found {
        Some(name) => string_of(&name),
        None => {
            let mut out = chars_of("App ");
            let mut id = chars_of(crate::paths::app_id_text(app_id).as_str());
            out.append(&mut id);
            string_of(&out)
        },
    }
}

/// The library directories that the platform's list of libraries names.
pub fn get_library_folders(contents: &str) -> (r: Vec<String>)
    ensures
        crate::paths::names(r@) == library_paths(contents@),
{
    let found = find_all_values(&chars_of(contents), &chars_of("path"), 1);
    let mut out: Vec<String> = Vec::new();
    let mut i: usize = 0;
    while i < found.len()
        invariant
            i <= found@.len(),
            value_views(found@) == all_values(contents@, "path"@, 1, 0),
            out@.len() == i,
            forall|j: int| 0 <= j < i ==> (#[trigger] out@[j])@ == unescaped(found@[j]@, 0),
        decreases found@.len() - i,
    {
        out.push(string_of(&unescape(&found[i])));
        i = i + 1;
    }
    out
}

// ---------------------------------------------------------------------------
// The statistics file in this format
// ---------------------------------------------------------------------------
/// Where the content of a text in quotes begins and ends, if one of one
/// character or more stands at `p`. With `digits`, the content is made of
/// digits.
pub open spec fn quoted_at(text: Seq<char>, p: int, digits: bool) -> Option<(int, int)> {
    if 0 <= p < text.len() && text[p] == '"' {
        let end = if digits {
            digits_end(text, p + 1)
        } else {
            quote_from(text, p + 1)
        };
        if end > p + 1 && end < text.len() && text[end] == '"' {
            Some((p + 1, end))
        } else {
            None
        }
    } else {
        None
    }
}

/// The number that digits write, where it is at most `cap`.
pub open spec fn capped(digits: Seq<char>, cap: int) -> Option<int> {
    if decimal_value(digits) <= cap {
        Some(decimal_value(digits) as int)
    } else {
        None
    }
}

/// The entry of the statistics file that begins at `p`, and where it ends:
/// a name in quotes, and in braces `"unlocked"` with a number in quotes and,
/// if it is there, `"unlocktime"` with a number in quotes. White space may
/// stand between the parts. A number of `unlocked` that does not fit counts
/// as zero; a time that does not fit is not known.
pub open spec fn stat_at(text: Seq<char>, p: int) -> Option<(StatRecord, int)> {
    match quoted_at(text, p, false) {
        Some((name_start, name_end)) => {
            let brace = skip_space(text, name_end + 1);
            let key = skip_space(text, brace + 1);
            let value = skip_space(text, key + "\"unlocked\""@.len());
            if brace < text.len() && text[brace] == '{' && occurs_at(text, "\"unlocked\""@, key) {
                match quoted_at(text, value, true) {
                    Some((unlocked_start, unlocked_end)) => {
                        let next = skip_space(text, unlocked_end + 1);
                        let time_at = skip_space(text, next + "\"unlocktime\""@.len());
                        let time = if occurs_at(text, "\"unlocktime\""@, next) {
                            quoted_at(text, time_at, true)
                        } else {
                            None
                        };
                        let close = match time {
                            Some((_, time_end)) => skip_space(text, time_end + 1),
                            None => next,
                        };
                        if close < text.len() && text[close] == '}' {
                            Some(
                                (
                                    StatRecord {
                                        achievement: text.subrange(name_start, name_end),
                                        unlocked: match capped(
                                            text.subrange(unlocked_start, unlocked_end),
                                            i32::MAX as int,
                                        ) {
                                            Some(n) => n as i32,
                                            None => 0,
                                        },
                                        unlocktime: match time {
                                            Some((time_start, time_end)) => match capped(
                                                text.subrange(time_start, time_end),
                                                i64::MAX as int,
                                            ) {
                                                Some(n) => Some(n as i64),
                                                None => None,
                                            },
                                            None => None,
                                        },
                                    },
                                    close + 1,
                                ),
                            )
                        } else {
                            None
                        }
                    },
                    None => None,
                }
            } else {
                None
            }
        },
        None => None,
    }
}

/// The entries of the statistics file from `from` on, in order. After an
/// entry, the next one is looked for behind its closing brace.
pub open spec fn stats_from(text: Seq<char>, from: int) -> Seq<StatRecord>
    decreases text.len() - from,
{
    if from < 0 || from >= text.len() {
        Seq::empty()
    } else {
        match stat_at(text, from) {
            Some((stat, end)) => if end > from {
                seq![stat] + stats_from(text, end)
            } else {
                Seq::empty()
            },
            None => stats_from(text, from + 1),
        }
    }
}

/// Where the content of a text in quotes begins and ends.
fn find_quoted(text: &Vec<char>, p: usize, digits: bool) -> (r: Option<(usize, usize)>)
    ensures
        match r {
            Some((start, end)) => quoted_at(text@, p as int, digits) == Some(
                (start as int, end as int),
            ) && p < start < end < text@.len() && (digits ==> forall|i: int|
                start <= i < end ==> is_digit(#[trigger] text@[i])),
            None => quoted_at(text@, p as int, digits) is None,
        },
{
    let len = text.len();
    if p >= len || text[p] != '"' {
        return None;
    }
    let end = if digits {
        find_digits_end(text, p + 1)
    } else {
        find_quote(text, p + 1)
    };
    if end > p + 1 && end < len && text[end] == '"' {
        Some((p + 1, end))
    } else {
        None
    }
}

/// The entry of the statistics file that begins at `p`, and where it ends.
fn find_stat(text: &Vec<char>, p: usize) -> (r: Option<(SteamAchievement, usize)>)
    ensures
        match r {
            Some((stat, end)) => stat_at(text@, p as int) == Some((stat@, end as int)) && p < end
                <= text@.len(),
            None => stat_at(text@, p as int) is None,
        },
{
    let len = text.len();
    let unlocked_key = chars_of("\"unlocked\"");
    let time_key = chars_of("\"unlocktime\"");
    let (name_start, name_end) = match find_quoted(text, p, false) {
        Some(span) => span,
        None => {
            return None;
        },
    };
    let brace = skip_whitespace(text, name_end + 1);
    if brace >= len || text[brace] != '{' {
        return None;
    }
    let key = skip_whitespace(text, brace + 1);
    if !matches_at(text, &unlocked_key, key) {
        return None;
    }
    let value = skip_whitespace(text, key + unlocked_key.len());
    let (unlocked_start, unlocked_end) = match find_quoted(text, value, true) {
        Some(span) => span,
        None => {
            return None;
        },
    };
    let next = skip_whitespace(text, unlocked_end + 1);
    let time = if matches_at(text, &time_key, next) {
        let time_at = skip_whitespace(text, next + time_key.len());
        find_quoted(text, time_at, true)
    } else {
        None
    };
    let close = match time {
        Some((_, time_end)) => skip_whitespace(text, time_end + 1),
        None => next,
    };
    if close >= len || text[close] != '}' {
        return None;
    }
    let unlocked = match parse_decimal(&slice(text, unlocked_start, unlocked_end), 2147483647) {
        Some(n) => n as i32,
        None => 0,
    };
    let unlocktime = match time {
        Some((time_start, time_end)) => match parse_decimal(
            &slice(text, time_start, time_end),
            9223372036854775807,
        ) {
            Some(n) => Some(n as i64),
            None => None,
        },
        None => None,
    };
    Some(
        (
            SteamAchievement {
                achievement: string_of(&slice(text, name_start, name_end)),
                unlocked,
                unlocktime,
            },
            close + 1,
        ),
    )
}

/// The entries of the platform's statistics file in this format.
pub fn parse_steam_achievements_vdf(contents: &str) -> (r: Vec<SteamAchievement>)
    ensures
        stat_records(r@) == stats_from(contents@, 0),
{
    let text = chars_of(contents);
    let mut out: Vec<SteamAchievement> = Vec::new();
    let mut p: usize = 0;
    while p < text.len()
        invariant
            p <= text@.len(),
            text@ == contents@,
            stats_from(text@, 0) == stat_records(out@) + stats_from(text@, p as int),
        decreases text@.len() - p,
    {
        match find_stat(&text, p) {
            Some((stat, end)) => {
                let ghost before = stat_records(out@);
                let ghost added = stat@;
                out.push(stat);
                assert(before + (seq![added] + stats_from(text@, end as int)) == before.push(added)
                    + stats_from(text@, end as int));
                p = end;
            },
            None => {
                p = p + 1;
            },
        }
    }
    out
}

} // verus!

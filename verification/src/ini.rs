//! The emulator's INI file: one section for each achievement, with the keys
//! `achieved` and `timestamp`.
//!
//! A section begins with a header `[name]` at the start of a line and runs
//! to the next line that begins with `[`. A key stands at the start of a
//! line, followed by `=` and its value; white space may stand around the `=`.

use crate::text::{
    alphanumeric, chars_of, decimal_value, is_alphanumeric, is_digit, is_whitespace, lowercase,
    lowercase_of, matches_at, occurs_at, parse_decimal, same_chars, slice, string_of, whitespace,
};
use vstd::prelude::*;

verus! {

/// One section of the file, as a mathematical value.
pub struct SectionRecord {
    pub name: Seq<char>,
    pub achieved: bool,
    pub timestamp: Option<i64>,
}

/// One section of the file: its name, whether it says `achieved = true`, and
/// its timestamp where it gives one above zero.
#[derive(Debug, Clone)]
pub struct IniSection {
    pub name: String,
    pub achieved: bool,
    pub timestamp: Option<i64>,
}

impl View for IniSection {
    type V = SectionRecord;

    open spec fn view(&self) -> SectionRecord {
        SectionRecord { name: self.name@, achieved: self.achieved, timestamp: self.timestamp }
    }
}

/// The sections of a list, each by its view.
pub open spec fn section_records(list: Seq<IniSection>) -> Seq<SectionRecord> {
    Seq::new(list.len(), |i: int| list[i]@)
}

/// Whether a line starts at position `p`.
pub open spec fn at_line_start(text: Seq<char>, p: int) -> bool {
    p == 0 || (0 < p <= text.len() && text[p - 1] == '\n')
}

/// The place of the first `]` at or after `from`; the length of the text
/// where there is none.
pub open spec fn close_from(text: Seq<char>, from: int) -> int
    decreases text.len() - from,
{
    if from < 0 || from >= text.len() {
        text.len() as int
    } else if text[from] == ']' {
        from
    } else {
        close_from(text, from + 1)
    }
}

/// Whether a header starts at position `p`: a `[` at the start of a line, a
/// name of one character or more, and a `]`.
pub open spec fn header_at(text: Seq<char>, p: int) -> bool {
    at_line_start(text, p) && 0 <= p < text.len() && text[p] == '[' && p + 1 < close_from(
        text,
        p + 1,
    ) < text.len()
}

/// Where a section's body ends: at the first line break after `from` that a
/// `[` follows; at the end of the text where there is none.
pub open spec fn body_end(text: Seq<char>, from: int) -> int
    decreases text.len() - from,
{
    if from < 0 || from + 1 >= text.len() {
        text.len() as int
    } else if text[from] == '\n' && text[from + 1] == '[' {
        from
    } else {
        body_end(text, from + 1)
    }
}

/// The place of the first character at or after `from` that is not white
/// space.
pub open spec fn skip_space(s: Seq<char>, from: int) -> int
    decreases s.len() - from,
{
    if from < 0 || from >= s.len() {
        s.len() as int
    } else if whitespace(s[from]) {
        skip_space(s, from + 1)
    } else {
        from
    }
}

/// Whether a character may stand in a value: a letter, a digit or `_`.
pub open spec fn word_char(c: char) -> bool {
    alphanumeric(c) || c == '_'
}

/// Where the run of value characters that starts at `from` ends.
pub open spec fn word_end(s: Seq<char>, from: int) -> int
    decreases s.len() - from,
{
    if from < 0 || from >= s.len() {
        s.len() as int
    } else if word_char(s[from]) {
        word_end(s, from + 1)
    } else {
        from
    }
}

/// Where the run of digits that starts at `from` ends.
pub open spec fn digits_end(s: Seq<char>, from: int) -> int
    decreases s.len() - from,
{
    if from < 0 || from >= s.len() {
        s.len() as int
    } else if is_digit(s[from]) {
        digits_end(s, from + 1)
    } else {
        from
    }
}

/// Where the value begins, if `key`, white space, `=` and white space stand
/// at the line start `q`.
pub open spec fn assignment_at(s: Seq<char>, key: Seq<char>, q: int) -> Option<int> {
    if at_line_start(s, q) && occurs_at(s, key, q) {
        let eq = skip_space(s, q + key.len());
        if eq < s.len() && s[eq] == '=' {
            Some(skip_space(s, eq + 1))
        } else {
            None
        }
    } else {
        None
    }
}

/// The value of the first line at or after `from` that assigns a word to the
/// key.
pub open spec fn word_value(s: Seq<char>, key: Seq<char>, from: int) -> Option<Seq<char>>
    decreases s.len() - from,
{
    if from < 0 || from >= s.len() {
        None
    } else {
        match assignment_at(s, key, from) {
            Some(v) => if word_end(s, v) > v {
                Some(s.subrange(v, word_end(s, v)))
            } else {
                word_value(s, key, from + 1)
            },
            None => word_value(s, key, from + 1),
        }
    }
}

/// The value of the first line at or after `from` that assigns digits to the
/// key.
pub open spec fn digits_value(s: Seq<char>, key: Seq<char>, from: int) -> Option<Seq<char>>
    decreases s.len() - from,
{
    if from < 0 || from >= s.len() {
        None
    } else {
        match assignment_at(s, key, from) {
            Some(v) => if digits_end(s, v) > v {
                Some(s.subrange(v, digits_end(s, v)))
            } else {
                digits_value(s, key, from + 1)
            },
            None => digits_value(s, key, from + 1),
        }
    }
}

/// Whether a section's body says `achieved = true`, in any case of `true`.
pub open spec fn body_achieved(body: Seq<char>) -> bool {
    match word_value(body, "achieved"@, 0) {
        Some(v) => lowercase_of(v) == "true"@,
        None => false,
    }
}

/// The timestamp of a section's body: the number after `timestamp =`, where
/// it is above zero and fits 64 bits with a sign.
pub open spec fn body_timestamp(body: Seq<char>) -> Option<i64> {
    match digits_value(body, "timestamp"@, 0) {
        Some(d) => if 0 < decimal_value(d) <= i64::MAX {
            Some(decimal_value(d) as i64)
        } else {
            None
        },
        None => None,
    }
}

/// The section whose header starts at `p`.
pub open spec fn section_at(text: Seq<char>, p: int) -> SectionRecord {
    let close = close_from(text, p + 1);
    let body = text.subrange(close + 1, body_end(text, close + 1));
    SectionRecord {
        name: text.subrange(p + 1, close),
        achieved: body_achieved(body),
        timestamp: body_timestamp(body),
    }
}

/// The sections whose headers start at or after `from`, in the order of the
/// file. After a header, the next one is looked for behind its `]`.
pub open spec fn sections_from(text: Seq<char>, from: int) -> Seq<SectionRecord>
    decreases text.len() - from,
{
    if from < 0 || from >= text.len() {
        Seq::empty()
    } else if header_at(text, from) {
        seq![section_at(text, from)] + sections_from(text, close_from(text, from + 1) + 1)
    } else {
        sections_from(text, from + 1)
    }
}

/// The sections of a file.
pub open spec fn ini_sections(text: Seq<char>) -> Seq<SectionRecord> {
    sections_from(text, 0)
}

/// The place of the first `]` at or after `from`.
pub fn find_close(text: &Vec<char>, from: usize) -> (r: usize)
    requires
        from <= text@.len(),
    ensures
        r == close_from(text@, from as int),
        from <= r <= text@.len(),
{
    let mut i: usize = from;
    while i < text.len() && text[i] != ']'
        invariant
            from <= i <= text@.len(),
            close_from(text@, from as int) == close_from(text@, i as int),
        decreases text@.len() - i,
    {
        i = i + 1;
    }
    i
}

/// Where a section's body ends.
pub fn find_body_end(text: &Vec<char>, from: usize) -> (r: usize)
    requires
        from <= text@.len(),
    ensures
        r == body_end(text@, from as int),
        from <= r <= text@.len(),
{
    let mut i: usize = from;
    loop
        invariant
            from <= i <= text@.len(),
            body_end(text@, from as int) == body_end(text@, i as int),
        decreases text@.len() - i,
    {
        if text.len() - i <= 1 {
            return text.len();
        }
        if text[i] == '\n' && text[i + 1] == '[' {
            return i;
        }
        i = i + 1;
    }
}

/// The place of the first character at or after `from` that is not white
/// space.
pub fn skip_whitespace(s: &Vec<char>, from: usize) -> (r: usize)
    requires
        from <= s@.len(),
    ensures
        r == skip_space(s@, from as int),
        from <= r <= s@.len(),
{
    let mut i: usize = from;
    while i < s.len() && is_whitespace(s[i])
        invariant
            from <= i <= s@.len(),
            skip_space(s@, from as int) == skip_space(s@, i as int),
        decreases s@.len() - i,
    {
        i = i + 1;
    }
    i
}

/// Where the run of value characters that starts at `from` ends.
pub fn find_word_end(s: &Vec<char>, from: usize) -> (r: usize)
    requires
        from <= s@.len(),
    ensures
        r == word_end(s@, from as int),
        from <= r <= s@.len(),
{
    let mut i: usize = from;
    while i < s.len() && (is_alphanumeric(s[i]) || s[i] == '_')
        invariant
            from <= i <= s@.len(),
            word_end(s@, from as int) == word_end(s@, i as int),
        decreases s@.len() - i,
    {
        i = i + 1;
    }
    i
}

/// Where the run of digits that starts at `from` ends.
pub fn find_digits_end(s: &Vec<char>, from: usize) -> (r: usize)
    requires
        from <= s@.len(),
    ensures
        r == digits_end(s@, from as int),
        from <= r <= s@.len(),
        forall|i: int| from <= i < r ==> is_digit(#[trigger] s@[i]),
{
    let mut i: usize = from;
    while i < s.len() && '0' <= s[i] && s[i] <= '9'
        invariant
            from <= i <= s@.len(),
            digits_end(s@, from as int) == digits_end(s@, i as int),
            forall|j: int| from <= j < i ==> is_digit(#[trigger] s@[j]),
        decreases s@.len() - i,
    {
        i = i + 1;
    }
    i
}

/// Where the value begins, if `key`, white space, `=` and white space stand
/// at the line start `q`.
pub fn find_assignment(s: &Vec<char>, key: &Vec<char>, q: usize) -> (r: Option<usize>)
    requires
        q <= s@.len(),
    ensures
        match r {
            Some(v) => assignment_at(s@, key@, q as int) == Some(v as int) && v <= s@.len(),
            None => assignment_at(s@, key@, q as int) is None,
        },
{
    if q > 0 && s[q - 1] != '\n' {
        return None;
    }
    if !matches_at(s, key, q) {
        return None;
    }
    let len = s.len();
    let eq = skip_whitespace(s, q + key.len());
    if eq < s.len() && s[eq] == '=' {
        Some(skip_whitespace(s, eq + 1))
    } else {
        None
    }
}

/// The value of the first line that assigns a word to the key.
pub fn read_word(s: &Vec<char>, key: &Vec<char>) -> (r: Option<Vec<char>>)
    ensures
        match r {
            Some(v) => word_value(s@, key@, 0) == Some(v@),
            None => word_value(s@, key@, 0) is None,
        },
{
    let mut q: usize = 0;
    while q < s.len()
        invariant
            q <= s@.len(),
            word_value(s@, key@, 0) == word_value(s@, key@, q as int),
        decreases s@.len() - q,
    {
        match find_assignment(s, key, q) {
            Some(v) => {
                let end = find_word_end(s, v);
                if end > v {
                    return Some(slice(s, v, end));
                }
            },
            None => {},
        }
        q = q + 1;
    }
    None
}

/// The value of the first line that assigns digits to the key.
pub fn read_digits(s: &Vec<char>, key: &Vec<char>) -> (r: Option<Vec<char>>)
    ensures
        match r {
            Some(v) => digits_value(s@, key@, 0) == Some(v@) && forall|i: int|
                0 <= i < v@.len() ==> is_digit(#[trigger] v@[i]),
            None => digits_value(s@, key@, 0) is None,
        },
{
    let mut q: usize = 0;
    while q < s.len()
        invariant
            q <= s@.len(),
            digits_value(s@, key@, 0) == digits_value(s@, key@, q as int),
        decreases s@.len() - q,
    {
        match find_assignment(s, key, q) {
            Some(v) => {
                let end = find_digits_end(s, v);
                if end > v {
                    return Some(slice(s, v, end));
                }
            },
            None => {},
        }
        q = q + 1;
    }
    None
}

/// Reads the section whose header starts at `p` and ends with the `]` at
/// `close`.
fn read_section(text: &Vec<char>, p: usize, close: usize) -> (r: IniSection)
    requires
        header_at(text@, p as int),
        close == close_from(text@, p + 1),
    ensures
        r@ == section_at(text@, p as int),
{
    let len = text.len();
    let end = find_body_end(text, close + 1);
    let body = slice(text, close + 1, end);
    let achieved = match read_word(&body, &chars_of("achieved")) {
        Some(v) => same_chars(&lowercase(&v), &chars_of("true")),
        None => false,
    };
    let timestamp = match read_digits(&body, &chars_of("timestamp")) {
        Some(d) => match parse_decimal(&d, i64::MAX as u64) {
            Some(n) => if n > 0 {
                Some(n as i64)
            } else {
                None
            },
            None => None,
        },
        None => None,
    };
    IniSection { name: string_of(&slice(text, p + 1, close)), achieved, timestamp }
}

/// The sections of a file.
pub fn parse_sections(text: &Vec<char>) -> (r: Vec<IniSection>)
    ensures
        section_records(r@) == ini_sections(text@),
{
    let mut out: Vec<IniSection> = Vec::new();
    let mut p: usize = 0;
    while p < text.len()
        invariant
            p <= text@.len(),
            ini_sections(text@) == section_records(out@) + sections_from(text@, p as int),
        decreases text@.len() - p,
    {
        let starts = (p == 0 || text[p - 1] == '\n') && text[p] == '[';
        if starts {
            let close = find_close(text, p + 1);
            if close > p + 1 && close < text.len() {
                let section = read_section(text, p, close);
                let ghost before = section_records(out@);
                out.push(section);
                assert(before + (seq![section_at(text@, p as int)] + sections_from(
                    text@,
                    close + 1,
                )) == before.push(section_at(text@, p as int)) + sections_from(text@, close + 1));
                p = close + 1;
            } else {
                p = p + 1;
            }
        } else {
            p = p + 1;
        }
    }
    out
}

/// The sections of a file.
pub fn parse_ini(text: &str) -> (r: Vec<IniSection>)
    ensures
        section_records(r@) == ini_sections(text@),
{
    parse_sections(&chars_of(text))
}

} // verus!

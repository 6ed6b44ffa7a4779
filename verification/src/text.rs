//! Character-level helpers shared by the parsers and matchers.
//!
//! Texts are handled as sequences of characters. What the Unicode tables
//! decide at length (case mapping, the classes of letters and digits) is
//! taken from the standard library and only named here; white space is a
//! short list of characters and is stated in full.

use vstd::prelude::*;

verus! {

/// Lowercase form of a text, as `str::to_lowercase` computes it.
pub uninterp spec fn lowercase_of(s: Seq<char>) -> Seq<char>;

/// Whether a character is alphanumeric, as `char::is_alphanumeric` decides it.
pub uninterp spec fn alphanumeric(c: char) -> bool;

/// Whether a character is alphabetic, as `char::is_alphabetic` decides it.
pub uninterp spec fn alphabetic(c: char) -> bool;

/// Whether a character is an uppercase letter, as `char::is_uppercase` decides it.
pub uninterp spec fn uppercase(c: char) -> bool;

/// Whether a character is numeric, as `char::is_numeric` decides it.
pub uninterp spec fn numeric(c: char) -> bool;

/// Whether a character is white space: a tab, a line feed, a vertical tab, a
/// form feed, a carriage return, a blank, a next-line mark, a no-break
/// space, the Ogham space mark, one of the spaces from the en quad to the
/// hair space, a line or paragraph separator, the narrow no-break space, the
/// medium mathematical space, or the ideographic space.
pub open spec fn whitespace(c: char) -> bool {
    let n = c as u32;
    (0x09 <= n <= 0x0d) || n == 0x20 || n == 0x85 || n == 0xa0 || n == 0x1680 || (0x2000 <= n
        <= 0x200a) || n == 0x2028 || n == 0x2029 || n == 0x202f || n == 0x205f || n == 0x3000
}

/// Calls `str::to_lowercase`: the result is the lowercase form of the whole text.
#[verifier::external_body]
pub(crate) fn to_lowercase(s: &str) -> (r: String)
    ensures
        r@ == lowercase_of(s@),
{
    s.to_lowercase()
}

/// Calls `char::is_alphanumeric`.
#[verifier::external_body]
pub(crate) fn is_alphanumeric(c: char) -> (r: bool)
    ensures
        r == alphanumeric(c),
{
    c.is_alphanumeric()
}

/// Calls `char::is_alphabetic`.
#[verifier::external_body]
pub(crate) fn is_alphabetic(c: char) -> (r: bool)
    ensures
        r == alphabetic(c),
{
    c.is_alphabetic()
}

/// Calls `char::is_uppercase`.
#[verifier::external_body]
pub(crate) fn is_uppercase(c: char) -> (r: bool)
    ensures
        r == uppercase(c),
{
    c.is_uppercase()
}

/// Calls `char::is_numeric`.
#[verifier::external_body]
pub(crate) fn is_numeric(c: char) -> (r: bool)
    ensures
        r == numeric(c),
{
    c.is_numeric()
}

/// Collects characters into a `String` with `Iterator::collect`: the text
/// holds exactly these characters, in order.
#[verifier::external_body]
pub(crate) fn string_of(v: &Vec<char>) -> (r: String)
    ensures
        r@ == v@,
{
    v.iter().collect()
}

/// Whether a character is white space.
pub fn is_whitespace(c: char) -> (r: bool)
    ensures
        r == whitespace(c),
{
    let n: u32 = c as u32;
    (0x09 <= n && n <= 0x0d) || n == 0x20 || n == 0x85 || n == 0xa0 || n == 0x1680 || (0x2000 <= n
        && n <= 0x200a) || n == 0x2028 || n == 0x2029 || n == 0x202f || n == 0x205f || n == 0x3000
}

/// The characters of a text, in order.
pub fn chars_of(s: &str) -> (v: Vec<char>)
    ensures
        v@ == s@,
{
    let mut v: Vec<char> = Vec::new();
    for c in it: s.chars()
        invariant
            it.seq() == s@,
            v@ == it.seq().take(it.index() as int),
    {
        v.push(c);
    }
    v
}

/// Number of bytes that one character takes in UTF-8.
pub open spec fn utf8_width(c: char) -> nat {
    if (c as u32) < 0x80 {
        1
    } else if (c as u32) < 0x800 {
        2
    } else if (c as u32) < 0x10000 {
        3
    } else {
        4
    }
}

/// Number of bytes that a text takes in UTF-8.
pub open spec fn byte_len(s: Seq<char>) -> nat
    decreases s.len(),
{
    if s.len() == 0 {
        0
    } else {
        byte_len(s.drop_last()) + utf8_width(s.last())
    }
}

/// Number of bytes that the characters take in UTF-8.
pub fn utf8_len(v: &Vec<char>) -> (n: u128)
    ensures
        n == byte_len(v@),
        n <= 4 * v@.len(),
        n <= 4 * usize::MAX,
{
    let count = v.len();
    let mut n: u128 = 0;
    let mut i: usize = 0;
    while i < count
        invariant
            i <= v@.len(),
            count == v@.len(),
            n == byte_len(v@.take(i as int)),
            n <= 4 * i,
        decreases v@.len() - i,
    {
        let c: u32 = v[i] as u32;
        let w: u128 = if c < 0x80 {
            1
        } else if c < 0x800 {
            2
        } else if c < 0x10000 {
            3
        } else {
            4
        };
        assert(v@.take(i + 1).drop_last() == v@.take(i as int));
        n = n + w;
        i = i + 1;
    }
    assert(v@.take(v@.len() as int) == v@);
    n
}

/// Lowercase form of a sequence of characters.
pub fn lowercase(v: &Vec<char>) -> (r: Vec<char>)
    ensures
        r@ == lowercase_of(v@),
{
    let s = string_of(v);
    let low = to_lowercase(s.as_str());
    chars_of(low.as_str())
}

/// Whether two sequences hold the same characters.
pub fn same_chars(a: &Vec<char>, b: &Vec<char>) -> (r: bool)
    ensures
        r == (a@ == b@),
{
    if a.len() != b.len() {
        return false;
    }
    let mut i: usize = 0;
    while i < a.len()
        invariant
            i <= a@.len(),
            a@.len() == b@.len(),
            a@.take(i as int) == b@.take(i as int),
        decreases a@.len() - i,
    {
        if a[i] != b[i] {
            return false;
        }
        i = i + 1;
    }
    assert(a@.take(a@.len() as int) == a@);
    assert(b@.take(b@.len() as int) == b@);
    true
}

/// Whether `needle` stands in `hay` at position `at`.
pub open spec fn occurs_at(hay: Seq<char>, needle: Seq<char>, at: int) -> bool {
    0 <= at && at + needle.len() <= hay.len() && hay.subrange(at, at + needle.len()) == needle
}

/// The first position at or after `from` at which `needle` stands in `hay`.
pub open spec fn find_from(hay: Seq<char>, needle: Seq<char>, from: int) -> Option<int>
    decreases hay.len() - from,
{
    if from < 0 || from + needle.len() > hay.len() {
        None
    } else if occurs_at(hay, needle, from) {
        Some(from)
    } else if from + needle.len() == hay.len() {
        None
    } else {
        find_from(hay, needle, from + 1)
    }
}

/// Whether `needle` stands somewhere in `hay`.
pub open spec fn contains_text(hay: Seq<char>, needle: Seq<char>) -> bool {
    find_from(hay, needle, 0) is Some
}

/// Whether `s` ends with `suffix`.
pub open spec fn ends_with(s: Seq<char>, suffix: Seq<char>) -> bool {
    suffix.len() <= s.len() && s.subrange(s.len() - suffix.len(), s.len() as int) == suffix
}

/// `find_from` gives the least position at which the needle stands.
pub proof fn lemma_find_from(hay: Seq<char>, needle: Seq<char>, from: int)
    requires
        0 <= from,
    ensures
        match find_from(hay, needle, from) {
            Some(at) => from <= at && occurs_at(hay, needle, at) && forall|j: int|
                from <= j < at ==> !occurs_at(hay, needle, j),
            None => forall|j: int| from <= j ==> !occurs_at(hay, needle, j),
        },
    decreases hay.len() - from,
{
    if from + needle.len() < hay.len() && !occurs_at(hay, needle, from) {
        lemma_find_from(hay, needle, from + 1);
    }
}

/// Whether `needle` stands in `hay` at position `at`.
pub fn matches_at(hay: &Vec<char>, needle: &Vec<char>, at: usize) -> (r: bool)
    ensures
        r == occurs_at(hay@, needle@, at as int),
{
    if needle.len() > hay.len() || at > hay.len() - needle.len() {
        return false;
    }
    let mut i: usize = 0;
    while i < needle.len()
        invariant
            i <= needle@.len(),
            at + needle@.len() <= hay@.len(),
            hay@.len() <= usize::MAX,
            hay@.subrange(at as int, at + i) == needle@.take(i as int),
        decreases needle@.len() - i,
    {
        if hay[at + i] != needle[i] {
            return false;
        }
        assert(hay@.subrange(at as int, at + i + 1) == hay@.subrange(at as int, at + i).push(
            hay@[at + i],
        ));
        i = i + 1;
    }
    assert(needle@.take(needle@.len() as int) == needle@);
    true
}

/// The first position at or after `from` at which `needle` stands in `hay`.
pub fn find(hay: &Vec<char>, needle: &Vec<char>, from: usize) -> (r: Option<usize>)
    ensures
        match r {
            Some(at) => find_from(hay@, needle@, from as int) == Some(at as int),
            None => find_from(hay@, needle@, from as int) is None,
        },
{
    if needle.len() > hay.len() {
        return None;
    }
    let last = hay.len() - needle.len();
    if from > last {
        return None;
    }
    let mut i: usize = from;
    loop
        invariant
            from <= i <= last,
            last == hay@.len() - needle@.len(),
            find_from(hay@, needle@, from as int) == find_from(hay@, needle@, i as int),
        decreases last - i,
    {
        if matches_at(hay, needle, i) {
            return Some(i);
        }
        if i == last {
            return None;
        }
        i = i + 1;
    }
}

/// Whether `needle` stands somewhere in `hay`.
pub fn contains(hay: &Vec<char>, needle: &Vec<char>) -> (r: bool)
    ensures
        r == contains_text(hay@, needle@),
{
    find(hay, needle, 0).is_some()
}

/// Whether `s` ends with `suffix`.
pub fn has_suffix(s: &Vec<char>, suffix: &Vec<char>) -> (r: bool)
    ensures
        r == ends_with(s@, suffix@),
{
    if suffix.len() > s.len() {
        return false;
    }
    matches_at(s, suffix, s.len() - suffix.len())
}

/// The characters `v[from..to]`.
pub fn slice(v: &Vec<char>, from: usize, to: usize) -> (r: Vec<char>)
    requires
        from <= to <= v@.len(),
    ensures
        r@ == v@.subrange(from as int, to as int),
{
    let mut r: Vec<char> = Vec::new();
    let mut i: usize = from;
    while i < to
        invariant
            from <= i <= to <= v@.len(),
            r@ == v@.subrange(from as int, i as int),
        decreases to - i,
    {
        r.push(v[i]);
        i = i + 1;
    }
    r
}

/// `s` with every `from` replaced by `to`.
pub open spec fn replaced(s: Seq<char>, from: char, to: char) -> Seq<char> {
    Seq::new(s.len(), |i: int| if s[i] == from { to } else { s[i] })
}

/// Replaces every `from` by `to`.
pub fn replace_char(v: &Vec<char>, from: char, to: char) -> (r: Vec<char>)
    ensures
        r@ == replaced(v@, from, to),
{
    let mut r: Vec<char> = Vec::new();
    let mut i: usize = 0;
    while i < v.len()
        invariant
            i <= v@.len(),
            r@ == replaced(v@, from, to).take(i as int),
        decreases v@.len() - i,
    {
        let c = v[i];
        r.push(if c == from { to } else { c });
        assert(replaced(v@, from, to).take(i + 1) == replaced(v@, from, to).take(i as int).push(
            replaced(v@, from, to)[i as int],
        ));
        i = i + 1;
    }
    r
}

/// Whether `a[i..]` comes before `b[i..]` in the order of the dictionary, the
/// characters taken by their code points.
pub open spec fn precedes_from(a: Seq<char>, b: Seq<char>, i: int) -> bool
    decreases b.len() - i,
{
    if i < 0 || i >= b.len() {
        false
    } else if i >= a.len() {
        true
    } else if a[i] != b[i] {
        (a[i] as u32) < (b[i] as u32)
    } else {
        precedes_from(a, b, i + 1)
    }
}

/// Whether `a` comes strictly before `b` in the order of the dictionary.
pub open spec fn text_precedes(a: Seq<char>, b: Seq<char>) -> bool {
    precedes_from(a, b, 0)
}

/// Whether `a` comes strictly before `b` in the order of the dictionary.
pub fn precedes(a: &Vec<char>, b: &Vec<char>) -> (r: bool)
    ensures
        r == text_precedes(a@, b@),
{
    let mut i: usize = 0;
    loop
        invariant
            text_precedes(a@, b@) == precedes_from(a@, b@, i as int),
            i <= b@.len(),
        decreases b@.len() - i,
    {
        if i >= b.len() {
            return false;
        }
        if i >= a.len() {
            return true;
        }
        if a[i] != b[i] {
            return (a[i] as u32) < (b[i] as u32);
        }
        i = i + 1;
    }
}

/// The digits of a number in base ten, without leading zeros.
pub open spec fn decimal_digits(n: nat) -> Seq<char>
    decreases n,
{
    if n < 10 {
        seq![digit_char(n)]
    } else {
        decimal_digits(n / 10).push(digit_char(n % 10))
    }
}

/// The character of a digit below ten.
pub open spec fn digit_char(d: nat) -> char {
    (('0' as u32 + d) as u32) as char
}

/// The digits of a number in base ten, without leading zeros.
pub fn decimal_chars(n: u64) -> (r: Vec<char>)
    ensures
        r@ == decimal_digits(n as nat),
{
    let mut rev: Vec<char> = Vec::new();
    let mut rest: u64 = n;
    while rest >= 10
        invariant
            decimal_digits(n as nat) == decimal_digits(rest as nat) + rev@.reverse(),
        decreases rest,
    {
        let d = digit_of((rest % 10) as u8);
        let ghost before = rev@;
        rev.push(d);
        assert(decimal_digits((rest / 10) as nat).push(d) + before.reverse() == decimal_digits(
            (rest / 10) as nat,
        ) + (seq![d] + before.reverse()));
        rest = rest / 10;
    }
    let first = digit_of(rest as u8);
    let mut r: Vec<char> = Vec::new();
    r.push(first);
    let mut i: usize = rev.len();
    while i > 0
        invariant
            i <= rev@.len(),
            r@ == seq![first] + rev@.reverse().take(rev@.len() - i),
        decreases i,
    {
        i = i - 1;
        r.push(rev[i]);
        assert(rev@.reverse().take(rev@.len() - i) == rev@.reverse().take(rev@.len() - i - 1).push(
            rev@[i as int],
        ));
    }
    r
}

/// The character of a digit below ten.
pub fn digit_of(d: u8) -> (c: char)
    requires
        d < 10,
    ensures
        c == digit_char(d as nat),
{
    (48u8 + d) as char
}

/// Whether a character is one of the digits `0` to `9`.
pub open spec fn is_digit(c: char) -> bool {
    '0' <= c <= '9'
}

/// The number that a sequence of digits writes in base ten.
pub open spec fn decimal_value(digits: Seq<char>) -> nat
    decreases digits.len(),
{
    if digits.len() == 0 {
        0
    } else {
        10 * decimal_value(digits.drop_last()) + (digits.last() as u32 - '0' as u32) as nat
    }
}

/// The value of a digit is below ten, and a longer number is no smaller.
pub proof fn lemma_decimal_grows(digits: Seq<char>, n: int)
    requires
        0 <= n <= digits.len(),
        forall|i: int| 0 <= i < digits.len() ==> is_digit(#[trigger] digits[i]),
    ensures
        decimal_value(digits.take(n)) <= decimal_value(digits),
    decreases digits.len() - n,
{
    if n < digits.len() {
        lemma_decimal_grows(digits, n + 1);
        assert(digits.take(n + 1).drop_last() == digits.take(n));
    } else {
        assert(digits.take(n) == digits);
    }
}

/// Reads a number in base ten. Gives the number where it is at most `cap`.
pub fn parse_decimal(digits: &Vec<char>, cap: u64) -> (r: Option<u64>)
    requires
        forall|i: int| 0 <= i < digits@.len() ==> is_digit(#[trigger] digits@[i]),
    ensures
        match r {
            Some(n) => n == decimal_value(digits@) && n <= cap,
            None => decimal_value(digits@) > cap,
        },
{
    let mut value: u128 = 0;
    let mut i: usize = 0;
    while i < digits.len()
        invariant
            i <= digits@.len(),
            forall|j: int| 0 <= j < digits@.len() ==> is_digit(#[trigger] digits@[j]),
            value == decimal_value(digits@.take(i as int)),
            value <= cap,
        decreases digits@.len() - i,
    {
        let d: u128 = (digits[i] as u32 - '0' as u32) as u128;
        assert(digits@.take(i + 1).drop_last() == digits@.take(i as int));
        value = 10 * value + d;
        if value > cap as u128 {
            proof {
                lemma_decimal_grows(digits@, i + 1);
            }
            return None;
        }
        i = i + 1;
    }
    assert(digits@.take(digits@.len() as int) == digits@);
    Some(value as u64)
}

/// The decimal text of a whole number with a sign.
pub open spec fn signed_digits(n: int) -> Seq<char> {
    if n < 0 {
        seq!['-'] + decimal_digits((-n) as nat)
    } else {
        decimal_digits(n as nat)
    }
}

/// The decimal text of a whole number with a sign.
pub fn signed_chars(n: i64) -> (r: Vec<char>)
    ensures
        r@ == signed_digits(n as int),
{
    if n < 0 {
        let magnitude: u64 = if n == i64::MIN {
            9223372036854775808u64
        } else {
            (-n) as u64
        };
        let mut r: Vec<char> = Vec::new();
        r.push('-');
        let mut digits = decimal_chars(magnitude);
        r.append(&mut digits);
        r
    } else {
        decimal_chars(n as u64)
    }
}

/// Where a text goes among `list[from..]`, which are in order: before the
/// first text that comes after it.
pub open spec fn text_place(list: Seq<Seq<char>>, t: Seq<char>, from: int) -> int
    decreases list.len() - from,
{
    if from < 0 || from >= list.len() {
        list.len() as int
    } else if text_precedes(t, list[from]) {
        from
    } else {
        text_place(list, t, from + 1)
    }
}

/// The first `n` texts in the order of the dictionary; equal texts stay in
/// their order.
pub open spec fn sorted_texts(list: Seq<Seq<char>>, n: nat) -> Seq<Seq<char>>
    decreases n,
{
    if n == 0 || n > list.len() {
        Seq::empty()
    } else {
        let before = sorted_texts(list, (n - 1) as nat);
        before.insert(text_place(before, list[n - 1], 0), list[n - 1])
    }
}

/// `text_place` is a place in the list.
pub proof fn lemma_text_place(list: Seq<Seq<char>>, t: Seq<char>, from: int)
    requires
        0 <= from <= list.len(),
    ensures
        from <= text_place(list, t, from) <= list.len(),
    decreases list.len() - from,
{
    if from < list.len() && !text_precedes(t, list[from]) {
        lemma_text_place(list, t, from + 1);
    }
}

/// The texts of a list, each by its view.
pub open spec fn text_views(list: Seq<String>) -> Seq<Seq<char>> {
    Seq::new(list.len(), |i: int| list[i]@)
}

/// Puts texts into the order of the dictionary.
pub fn sort_texts(list: &Vec<String>) -> (r: Vec<String>)
    ensures
        text_views(r@) == sorted_texts(text_views(list@), list@.len()),
        crate::laws::texts_ordered(text_views(r@)),
        r@.len() == list@.len(),
{
    proof {
        crate::laws::lemma_sorted_texts(text_views(list@), list@.len());
    }
    let mut out: Vec<String> = Vec::new();
    let mut i: usize = 0;
    while i < list.len()
        invariant
            i <= list@.len(),
            text_views(out@) == sorted_texts(text_views(list@), i as nat),
        decreases list@.len() - i,
    {
        let t = chars_of(list[i].as_str());
        let ghost before = text_views(out@);
        proof {
            lemma_text_place(before, t@, 0);
        }
        let mut at: usize = 0;
        while at < out.len() && !precedes(&t, &chars_of(out[at].as_str()))
            invariant
                at <= out@.len(),
                before == text_views(out@),
                text_place(before, t@, 0) == text_place(before, t@, at as int),
            decreases out@.len() - at,
        {
            at = at + 1;
        }
        out.insert(at, list[i].clone());
        i = i + 1;
    }
    out
}

} // verus!

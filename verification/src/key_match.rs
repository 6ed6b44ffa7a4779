//! Binding the section names of an emulator file to the entries of a schema.
//!
//! A section name is bound by the first of four rules that applies: the name
//! is a schema key; it ends in a number that counts the schema's entries from
//! one; without its prefix it is a display name; or enough of its words are
//! found in an entry's display name and description.

use crate::steam_achievements::{schema_view, SchemaEntry, SteamAchievementSchema};
use crate::text::{
    alphabetic, alphanumeric, byte_len, chars_of, contains, contains_text, decimal_value, ends_with,
    has_suffix, is_alphabetic, is_alphanumeric, is_digit, is_numeric, is_uppercase, lowercase,
    lowercase_of, numeric, parse_decimal, replace_char, replaced, same_chars, slice, uppercase,
    utf8_len,
};
use vstd::prelude::*;

verus! {

// ---------------------------------------------------------------------------
// Segments: the maximal runs of alphanumeric characters
// ---------------------------------------------------------------------------
/// The runs closed within the first `n` characters, and the run still open.
pub open spec fn segment_state(s: Seq<char>, n: nat) -> (Seq<Seq<char>>, Seq<char>)
    decreases n,
{
    if n == 0 || n > s.len() {
        (Seq::empty(), Seq::empty())
    } else {
        let (done, open) = segment_state(s, (n - 1) as nat);
        let c = s[n - 1];
        if alphanumeric(c) {
            (done, open.push(c))
        } else if open.len() > 0 {
            (done.push(open), Seq::empty())
        } else {
            (done, open)
        }
    }
}

/// The maximal runs of alphanumeric characters of a text, in order.
pub open spec fn segments(s: Seq<char>) -> Seq<Seq<char>> {
    let (done, open) = segment_state(s, s.len());
    if open.len() > 0 {
        done.push(open)
    } else {
        done
    }
}

/// The views of a list of character vectors.
pub open spec fn words_view(words: Seq<Vec<char>>) -> Seq<Seq<char>> {
    Seq::new(words.len(), |i: int| words[i]@)
}

/// Splits a text into its maximal runs of alphanumeric characters.
pub fn split_segments(s: &Vec<char>) -> (r: Vec<Vec<char>>)
    ensures
        words_view(r@) == segments(s@),
{
    let mut done: Vec<Vec<char>> = Vec::new();
    let mut open: Vec<char> = Vec::new();
    let mut i: usize = 0;
    while i < s.len()
        invariant
            i <= s@.len(),
            segment_state(s@, i as nat) == (words_view(done@), open@),
        decreases s@.len() - i,
    {
        let c = s[i];
        let ghost before = words_view(done@);
        if is_alphanumeric(c) {
            open.push(c);
        } else if open.len() > 0 {
            done.push(open);
            open = Vec::new();
        }
        i = i + 1;
    }
    if open.len() > 0 {
        done.push(open);
    }
    done
}

// ---------------------------------------------------------------------------
// Words of a section name
// ---------------------------------------------------------------------------
/// Whether no letter of the segment is in lower case.
pub open spec fn all_caps(seg: Seq<char>) -> bool {
    forall|i: int| 0 <= i < seg.len() ==> !alphabetic(#[trigger] seg[i]) || uppercase(seg[i])
}

/// Whether every character is numeric.
pub open spec fn all_numeric(w: Seq<char>) -> bool {
    forall|i: int| 0 <= i < w.len() ==> numeric(#[trigger] w[i])
}

/// Whether a new word starts at position `i` of a segment: where letters and
/// digits meet, and before an uppercase letter that follows a letter.
pub open spec fn word_starts_at(seg: Seq<char>, i: int) -> bool {
    0 < i < seg.len() && (numeric(seg[i - 1]) != numeric(seg[i]) || (uppercase(seg[i])
        && !numeric(seg[i - 1])))
}

/// The words closed within the first `n` characters of a segment, and the
/// word still open.
pub open spec fn piece_state(seg: Seq<char>, n: nat) -> (Seq<Seq<char>>, Seq<char>)
    decreases n,
{
    if n == 0 || n > seg.len() {
        (Seq::empty(), Seq::empty())
    } else {
        let (done, open) = piece_state(seg, (n - 1) as nat);
        if word_starts_at(seg, n - 1) {
            (done.push(lowercase_of(open)), seq![seg[n - 1]])
        } else {
            (done, open.push(seg[n - 1]))
        }
    }
}

/// The words of one segment, in lower case: the segment itself where it is
/// all capitals, else its pieces between the places where a word starts.
pub open spec fn segment_words(seg: Seq<char>) -> Seq<Seq<char>> {
    if all_caps(seg) {
        seq![lowercase_of(seg)]
    } else {
        let (done, open) = piece_state(seg, seg.len());
        if open.len() > 0 {
            done.push(lowercase_of(open))
        } else {
            done
        }
    }
}

/// Whether a word counts: it is longer than two bytes or a number.
pub open spec fn keeps_word(w: Seq<char>) -> bool {
    byte_len(w) > 2 || all_numeric(w)
}

/// Those of the first `n` words that count, in order.
pub open spec fn kept_words(words: Seq<Seq<char>>, n: nat) -> Seq<Seq<char>>
    decreases n,
{
    if n == 0 || n > words.len() {
        Seq::empty()
    } else if keeps_word(words[n - 1]) {
        kept_words(words, (n - 1) as nat).push(words[n - 1])
    } else {
        kept_words(words, (n - 1) as nat)
    }
}

/// The words of the first `n` segments that count.
pub open spec fn keywords_of(segs: Seq<Seq<char>>, n: nat) -> Seq<Seq<char>>
    decreases n,
{
    if n == 0 || n > segs.len() {
        Seq::empty()
    } else {
        keywords_of(segs, (n - 1) as nat) + kept_words(
            segment_words(segs[n - 1]),
            segment_words(segs[n - 1]).len(),
        )
    }
}

/// The keywords of a section name (its prefix already taken off).
pub open spec fn keywords(cleaned: Seq<char>) -> Seq<Seq<char>> {
    keywords_of(segments(cleaned), segments(cleaned).len())
}

/// Whether no letter of the segment is in lower case.
pub fn is_all_caps(seg: &Vec<char>) -> (r: bool)
    ensures
        r == all_caps(seg@),
{
    let mut i: usize = 0;
    while i < seg.len()
        invariant
            i <= seg@.len(),
            forall|j: int| 0 <= j < i ==> !alphabetic(#[trigger] seg@[j]) || uppercase(seg@[j]),
        decreases seg@.len() - i,
    {
        if is_alphabetic(seg[i]) && !is_uppercase(seg[i]) {
            return false;
        }
        i = i + 1;
    }
    true
}

/// Whether every character is numeric.
pub fn is_all_numeric(w: &Vec<char>) -> (r: bool)
    ensures
        r == all_numeric(w@),
{
    let mut i: usize = 0;
    while i < w.len()
        invariant
            i <= w@.len(),
            forall|j: int| 0 <= j < i ==> numeric(#[trigger] w@[j]),
        decreases w@.len() - i,
    {
        if !is_numeric(w[i]) {
            return false;
        }
        i = i + 1;
    }
    true
}

/// The words of one segment, in lower case.
pub fn split_words(seg: &Vec<char>) -> (r: Vec<Vec<char>>)
    ensures
        words_view(r@) == segment_words(seg@),
{
    let mut done: Vec<Vec<char>> = Vec::new();
    if is_all_caps(seg) {
        done.push(lowercase(seg));
        return done;
    }
    let mut open: Vec<char> = Vec::new();
    let mut i: usize = 0;
    while i < seg.len()
        invariant
            i <= seg@.len(),
            piece_state(seg@, i as nat) == (words_view(done@), open@),
        decreases seg@.len() - i,
    {
        let c = seg[i];
        let starts = i > 0 && (is_numeric(seg[i - 1]) != is_numeric(c) || (is_uppercase(c)
            && !is_numeric(seg[i - 1])));
        if starts {
            let ghost before = words_view(done@);
            done.push(lowercase(&open));
            open = Vec::new();
            open.push(c);
        } else {
            open.push(c);
        }
        i = i + 1;
    }
    if open.len() > 0 {
        done.push(lowercase(&open));
    }
    done
}

/// The keywords of a section name (its prefix already taken off).
pub fn extract_keywords(cleaned: &Vec<char>) -> (r: Vec<Vec<char>>)
    ensures
        words_view(r@) == keywords(cleaned@),
{
    let segs = split_segments(cleaned);
    let mut out: Vec<Vec<char>> = Vec::new();
    let mut i: usize = 0;
    while i < segs.len()
        invariant
            i <= segs@.len(),
            words_view(segs@) == segments(cleaned@),
            words_view(out@) == keywords_of(segments(cleaned@), i as nat),
        decreases segs@.len() - i,
    {
        let words = split_words(&segs[i]);
        let ghost start = words_view(out@);
        let ghost all = segment_words(segs@[i as int]@);
        let mut k: usize = 0;
        while k < words.len()
            invariant
                k <= words@.len(),
                words_view(words@) == all,
                words_view(out@) == start + kept_words(all, k as nat),
            decreases words@.len() - k,
        {
            let w = &words[k];
            let keep = utf8_len(w) > 2 || is_all_numeric(w);
            let ghost before = words_view(out@);
            if keep {
                out.push(w.clone());
                assert(words_view(out@) == before.push(all[k as int]));
            }
            k = k + 1;
        }
        i = i + 1;
    }
    out
}

// ---------------------------------------------------------------------------
// The fixed word lists
// ---------------------------------------------------------------------------
/// The endings that are taken off a word to find its stem, in the order in
/// which they are tried.
pub open spec fn stem_suffixes() -> Seq<Seq<char>> {
    seq![
        "iac"@,
        "ic"@,
        "al"@,
        "er"@,
        "ing"@,
        "ed"@,
        "ly"@,
        "ness"@,
        "ment"@,
        "ous"@,
        "ful"@,
    ]
}

/// The groups of words that stand for one another.
pub open spec fn synonym_groups() -> Seq<Seq<Seq<char>>> {
    seq![
        seq!["boundless"@, "without"@, "bounds"@, "endless"@, "infinite"@, "unlimited"@],
        seq!["rage"@, "anger"@, "fury"@, "wrath"@],
        seq!["support"@, "helper"@, "assist"@, "aid"@],
        seq!["specialist"@, "expert"@, "master"@, "main"@],
        seq!["true"@, "real"@, "genuine"@, "authentic"@],
        seq!["kill"@, "slay"@, "defeat"@, "destroy"@, "eliminate"@],
        seq!["win"@, "victory"@, "triumph"@, "conquer"@],
        seq!["lose"@, "defeat"@, "fail"@, "loss"@],
        seq!["complete"@, "finish"@, "done"@, "accomplish"@],
        seq!["first"@, "initial"@, "beginning"@],
    ]
}

/// The views of a list of word lists.
pub open spec fn groups_view(groups: Seq<Vec<Vec<char>>>) -> Seq<Seq<Seq<char>>> {
    Seq::new(groups.len(), |i: int| words_view(groups[i]@))
}

/// The fixed word lists, ready for matching.
pub struct Lexicon {
    pub suffixes: Vec<Vec<char>>,
    pub groups: Vec<Vec<Vec<char>>>,
}

impl Lexicon {
    /// Whether the lists are the fixed ones.
    pub open spec fn wf(&self) -> bool {
        &&& words_view(self.suffixes@) == stem_suffixes()
        &&& groups_view(self.groups@) == synonym_groups()
    }

    /// The fixed word lists.
    pub fn new() -> (lex: Lexicon)
        ensures
            lex.wf(),
    {
        let mut suffixes: Vec<Vec<char>> = Vec::new();
        suffixes.push(chars_of("iac"));
        suffixes.push(chars_of("ic"));
        suffixes.push(chars_of("al"));
        suffixes.push(chars_of("er"));
        suffixes.push(chars_of("ing"));
        suffixes.push(chars_of("ed"));
        suffixes.push(chars_of("ly"));
        suffixes.push(chars_of("ness"));
        suffixes.push(chars_of("ment"));
        suffixes.push(chars_of("ous"));
        suffixes.push(chars_of("ful"));
        assert(words_view(suffixes@) == stem_suffixes());
        let mut groups: Vec<Vec<Vec<char>>> = Vec::new();
        let g0 = word_list(&["boundless", "without", "bounds", "endless", "infinite", "unlimited"]);
        assert(words_view(g0@) == seq!["boundless"@, "without"@, "bounds"@, "endless"@, "infinite"@, "unlimited"@]);
        groups.push(g0);
        let g1 = word_list(&["rage", "anger", "fury", "wrath"]);
        assert(words_view(g1@) == seq!["rage"@, "anger"@, "fury"@, "wrath"@]);
        groups.push(g1);
        let g2 = word_list(&["support", "helper", "assist", "aid"]);
        assert(words_view(g2@) == seq!["support"@, "helper"@, "assist"@, "aid"@]);
        groups.push(g2);
        let g3 = word_list(&["specialist", "expert", "master", "main"]);
        assert(words_view(g3@) == seq!["specialist"@, "expert"@, "master"@, "main"@]);
        groups.push(g3);
        let g4 = word_list(&["true", "real", "genuine", "authentic"]);
        assert(words_view(g4@) == seq!["true"@, "real"@, "genuine"@, "authentic"@]);
        groups.push(g4);
        let g5 = word_list(&["kill", "slay", "defeat", "destroy", "eliminate"]);
        assert(words_view(g5@) == seq!["kill"@, "slay"@, "defeat"@, "destroy"@, "eliminate"@]);
        groups.push(g5);
        let g6 = word_list(&["win", "victory", "triumph", "conquer"]);
        assert(words_view(g6@) == seq!["win"@, "victory"@, "triumph"@, "conquer"@]);
        groups.push(g6);
        let g7 = word_list(&["lose", "defeat", "fail", "loss"]);
        assert(words_view(g7@) == seq!["lose"@, "defeat"@, "fail"@, "loss"@]);
        groups.push(g7);
        let g8 = word_list(&["complete", "finish", "done", "accomplish"]);
        assert(words_view(g8@) == seq!["complete"@, "finish"@, "done"@, "accomplish"@]);
        groups.push(g8);
        let g9 = word_list(&["first", "initial", "beginning"]);
        assert(words_view(g9@) == seq!["first"@, "initial"@, "beginning"@]);
        groups.push(g9);
        assert(groups_view(groups@) == synonym_groups());
        Lexicon { suffixes, groups }
    }
}

/// The characters of each word of a list.
fn word_list(words: &[&str]) -> (r: Vec<Vec<char>>)
    ensures
        words_view(r@) == Seq::new(words@.len(), |i: int| words@[i]@),
{
    let mut r: Vec<Vec<char>> = Vec::new();
    let mut i: usize = 0;
    while i < words.len()
        invariant
            i <= words@.len(),
            words_view(r@) == Seq::new(i as nat, |j: int| words@[j]@),
        decreases words@.len() - i,
    {
        let w = chars_of(words[i]);
        let ghost before = words_view(r@);
        r.push(w);
        assert(words_view(r@) == before.push(words@[i as int]@));
        i = i + 1;
    }
    r
}

// ---------------------------------------------------------------------------
// When a keyword matches a word
// ---------------------------------------------------------------------------
/// The stem of a word: the word without the first ending among
/// `endings[k..]` that it carries, if the word is more than two bytes longer
/// than that ending.
pub open spec fn stem_from(w: Seq<char>, endings: Seq<Seq<char>>, k: int) -> Seq<char>
    decreases endings.len() - k,
{
    if k < 0 || k >= endings.len() {
        w
    } else if byte_len(w) > byte_len(endings[k]) + 2 && ends_with(w, endings[k]) {
        w.subrange(0, w.len() - endings[k].len())
    } else {
        stem_from(w, endings, k + 1)
    }
}

/// The stem of a word.
pub open spec fn stem(w: Seq<char>) -> Seq<char> {
    stem_from(w, stem_suffixes(), 0)
}

/// Whether two words have stems of four bytes or more, one holding the other.
pub open spec fn stems_match(a: Seq<char>, b: Seq<char>) -> bool {
    byte_len(stem(a)) >= 4 && byte_len(stem(b)) >= 4 && (contains_text(stem(a), stem(b))
        || contains_text(stem(b), stem(a)))
}

/// Whether two words belong to one group of synonyms.
pub open spec fn synonyms(a: Seq<char>, b: Seq<char>) -> bool {
    exists|g: int|
        0 <= g < synonym_groups().len() && (#[trigger] synonym_groups()[g]).contains(a)
            && synonym_groups()[g].contains(b)
}

/// How many of the first `n` characters of `short` occur in `long`.
pub open spec fn shared_chars(short: Seq<char>, long: Seq<char>, n: nat) -> nat
    decreases n,
{
    if n == 0 || n > short.len() {
        0
    } else if long.contains(short[n - 1]) {
        shared_chars(short, long, (n - 1) as nat) + 1
    } else {
        shared_chars(short, long, (n - 1) as nat)
    }
}

/// Whether two words of four bytes or more share enough characters: of the
/// characters of the shorter one, those found in the longer one number at
/// least seven tenths of the shorter one's length in bytes.
pub open spec fn overlap_match(a: Seq<char>, b: Seq<char>) -> bool {
    let short = if byte_len(a) < byte_len(b) {
        a
    } else {
        b
    };
    let long = if byte_len(a) < byte_len(b) {
        b
    } else {
        a
    };
    byte_len(a) >= 4 && byte_len(b) >= 4 && 10 * shared_chars(short, long, short.len()) >= 7
        * byte_len(short)
}

/// Whether two words of four characters or more differ at most in their last
/// character.
pub open spec fn differ_in_last(a: Seq<char>, b: Seq<char>) -> bool {
    byte_len(a) >= 4 && byte_len(b) >= 4 && a.len() >= 4 && b.len() >= 4 && a.drop_last()
        == b.drop_last()
}

/// Whether a keyword matches one word of a schema entry's text.
pub open spec fn word_matches(kw: Seq<char>, word: Seq<char>) -> bool {
    kw.len() > 0 && word.len() > 0 && (contains_text(kw, word) || contains_text(word, kw)
        || stems_match(kw, word) || synonyms(kw, word) || overlap_match(kw, word)
        || differ_in_last(kw, word))
}

/// Whether a keyword matches a schema entry's text: it stands in the text, or
/// it matches one of the text's words.
pub open spec fn keyword_matches(kw: Seq<char>, text: Seq<char>) -> bool {
    contains_text(text, kw) || exists|j: int|
        0 <= j < segments(text).len() && word_matches(kw, #[trigger] segments(text)[j])
}

impl Lexicon {
    /// The stem of a word.
    pub fn stem_of(&self, w: &Vec<char>) -> (r: Vec<char>)
        requires
            self.wf(),
        ensures
            r@ == stem(w@),
    {
        let len = utf8_len(w);
        let mut k: usize = 0;
        while k < self.suffixes.len()
            invariant
                k <= self.suffixes@.len(),
                self.wf(),
                len == byte_len(w@),
                stem(w@) == stem_from(w@, stem_suffixes(), k as int),
            decreases self.suffixes@.len() - k,
        {
            let ending = &self.suffixes[k];
            if len > utf8_len(ending) + 2 && has_suffix(w, ending) {
                return slice(w, 0, w.len() - ending.len());
            }
            k = k + 1;
        }
        w.clone()
    }

    /// Whether two words belong to one group of synonyms.
    pub fn are_synonyms(&self, a: &Vec<char>, b: &Vec<char>) -> (r: bool)
        requires
            self.wf(),
        ensures
            r == synonyms(a@, b@),
    {
        let mut g: usize = 0;
        while g < self.groups.len()
            invariant
                g <= self.groups@.len(),
                self.wf(),
                forall|h: int|
                    0 <= h < g ==> !((#[trigger] synonym_groups()[h]).contains(a@)
                        && synonym_groups()[h].contains(b@)),
            decreases self.groups@.len() - g,
        {
            assert(words_view(self.groups@[g as int]@) == synonym_groups()[g as int]);
            if has_word(&self.groups[g], a) && has_word(&self.groups[g], b) {
                return true;
            }
            g = g + 1;
        }
        false
    }

    /// Whether a keyword matches one word of a schema entry's text.
    pub fn word_match(&self, kw: &Vec<char>, word: &Vec<char>) -> (r: bool)
        requires
            self.wf(),
        ensures
            r == word_matches(kw@, word@),
    {
        if kw.len() == 0 || word.len() == 0 {
            return false;
        }
        if contains(kw, word) || contains(word, kw) {
            return true;
        }
        let kw_stem = self.stem_of(kw);
        let word_stem = self.stem_of(word);
        if utf8_len(&kw_stem) >= 4 && utf8_len(&word_stem) >= 4 && (contains(&kw_stem, &word_stem)
            || contains(&word_stem, &kw_stem)) {
            return true;
        }
        if self.are_synonyms(kw, word) {
            return true;
        }
        if overlaps(kw, word) {
            return true;
        }
        differs_in_last(kw, word)
    }

    /// Whether a keyword matches a schema entry's text, whose words are
    /// `words`.
    pub fn keyword_match(&self, kw: &Vec<char>, text: &Vec<char>, words: &Vec<Vec<char>>) -> (r:
        bool)
        requires
            self.wf(),
            words_view(words@) == segments(text@),
        ensures
            r == keyword_matches(kw@, text@),
    {
        if contains(text, kw) {
            return true;
        }
        let mut j: usize = 0;
        while j < words.len()
            invariant
                j <= words@.len(),
                self.wf(),
                words_view(words@) == segments(text@),
                forall|i: int| 0 <= i < j ==> !word_matches(kw@, #[trigger] segments(text@)[i]),
            decreases words@.len() - j,
        {
            assert(words@[j as int]@ == segments(text@)[j as int]);
            if self.word_match(kw, &words[j]) {
                return true;
            }
            j = j + 1;
        }
        false
    }
}

/// Whether a list holds a word.
pub fn has_word(list: &Vec<Vec<char>>, w: &Vec<char>) -> (r: bool)
    ensures
        r == words_view(list@).contains(w@),
{
    let mut i: usize = 0;
    while i < list.len()
        invariant
            i <= list@.len(),
            forall|j: int| 0 <= j < i ==> words_view(list@)[j] != w@,
        decreases list@.len() - i,
    {
        if same_chars(&list[i], w) {
            assert(words_view(list@)[i as int] == w@);
            return true;
        }
        i = i + 1;
    }
    false
}

/// Whether a character occurs in a word.
pub fn has_char(w: &Vec<char>, c: char) -> (r: bool)
    ensures
        r == w@.contains(c),
{
    let mut i: usize = 0;
    while i < w.len()
        invariant
            i <= w@.len(),
            forall|j: int| 0 <= j < i ==> w@[j] != c,
        decreases w@.len() - i,
    {
        if w[i] == c {
            return true;
        }
        i = i + 1;
    }
    false
}

/// Whether two words of four bytes or more share enough characters.
pub fn overlaps(a: &Vec<char>, b: &Vec<char>) -> (r: bool)
    ensures
        r == overlap_match(a@, b@),
{
    let la = utf8_len(a);
    let lb = utf8_len(b);
    if la < 4 || lb < 4 {
        return false;
    }
    let a_shorter = la < lb;
    let short = if a_shorter {
        a
    } else {
        b
    };
    let long = if a_shorter {
        b
    } else {
        a
    };
    let short_len = if a_shorter {
        la
    } else {
        lb
    };
    let mut shared: u128 = 0;
    let mut i: usize = 0;
    while i < short.len()
        invariant
            i <= short@.len(),
            shared == shared_chars(short@, long@, i as nat),
            shared <= i,
        decreases short@.len() - i,
    {
        if has_char(long, short[i]) {
            shared = shared + 1;
        }
        i = i + 1;
    }
    10 * shared >= 7 * short_len
}

/// Whether two words of four characters or more differ at most in their last
/// character.
pub fn differs_in_last(a: &Vec<char>, b: &Vec<char>) -> (r: bool)
    ensures
        r == differ_in_last(a@, b@),
{
    if utf8_len(a) < 4 || utf8_len(b) < 4 || a.len() < 4 || b.len() < 4 {
        return false;
    }
    let head_a = slice(a, 0, a.len() - 1);
    let head_b = slice(b, 0, b.len() - 1);
    same_chars(&head_a, &head_b)
}

// ---------------------------------------------------------------------------
// When the keywords of a section match a schema entry
// ---------------------------------------------------------------------------
/// The text of a schema entry that keywords are matched against: display
/// name and description in lower case, underscores as spaces, one space
/// between the two.
pub open spec fn entry_text(e: SchemaEntry) -> Seq<char> {
    replaced(lowercase_of(e.display_name), '_', ' ') + seq![' '] + replaced(
        lowercase_of(e.description_text()),
        '_',
        ' ',
    )
}

/// How many of the first `n` keywords match the text.
pub open spec fn matched_keywords(kws: Seq<Seq<char>>, text: Seq<char>, n: nat) -> nat
    decreases n,
{
    if n == 0 || n > kws.len() {
        0
    } else if keyword_matches(kws[n - 1], text) {
        matched_keywords(kws, text, (n - 1) as nat) + 1
    } else {
        matched_keywords(kws, text, (n - 1) as nat)
    }
}

/// How many of `count` keywords have to match: half of them, and at least one.
pub open spec fn threshold(count: nat) -> nat {
    if count / 2 >= 1 {
        count / 2
    } else {
        1
    }
}

/// Whether enough keywords match the text.
pub open spec fn keywords_match(kws: Seq<Seq<char>>, text: Seq<char>) -> bool {
    kws.len() > 0 && matched_keywords(kws, text, kws.len()) >= threshold(kws.len())
}

/// The first entry among `schema[from..]` whose text enough keywords match.
pub open spec fn first_by_keywords(schema: Seq<SchemaEntry>, kws: Seq<Seq<char>>, from: int)
    -> Option<int>
    decreases schema.len() - from,
{
    if from < 0 || from >= schema.len() {
        None
    } else if keywords_match(kws, entry_text(schema[from])) {
        Some(from)
    } else {
        first_by_keywords(schema, kws, from + 1)
    }
}

/// The first entry among `schema[from..]` whose key is `key`.
pub open spec fn first_with_key(schema: Seq<SchemaEntry>, key: Seq<char>, from: int) -> Option<
    int,
>
    decreases schema.len() - from,
{
    if from < 0 || from >= schema.len() {
        None
    } else if schema[from].name == key {
        Some(from)
    } else {
        first_with_key(schema, key, from + 1)
    }
}

/// The first entry among `schema[from..]` whose display name in lower case
/// is `lowered`.
pub open spec fn first_named(schema: Seq<SchemaEntry>, lowered: Seq<char>, from: int) -> Option<
    int,
>
    decreases schema.len() - from,
{
    if from < 0 || from >= schema.len() {
        None
    } else if lowercase_of(schema[from].display_name) == lowered {
        Some(from)
    } else {
        first_named(schema, lowered, from + 1)
    }
}

/// The text of an entry that keywords are matched against.
pub fn text_of_entry(e: &SteamAchievementSchema) -> (r: Vec<char>)
    ensures
        r@ == entry_text(e@),
{
    let name = lowercase(&chars_of(e.display_name.as_str()));
    let description = match &e.description {
        Some(d) => lowercase(&chars_of(d.as_str())),
        None => lowercase(&Vec::new()),
    };
    let mut r = replace_char(&name, '_', ' ');
    r.push(' ');
    let mut tail = replace_char(&description, '_', ' ');
    r.append(&mut tail);
    r
}

impl Lexicon {
    /// Whether enough keywords match the text.
    pub fn keywords_fit(&self, kws: &Vec<Vec<char>>, text: &Vec<char>) -> (r: bool)
        requires
            self.wf(),
        ensures
            r == keywords_match(words_view(kws@), text@),
    {
        if kws.len() == 0 {
            return false;
        }
        let words = split_segments(text);
        let mut matched: usize = 0;
        let mut k: usize = 0;
        while k < kws.len()
            invariant
                k <= kws@.len(),
                self.wf(),
                words_view(words@) == segments(text@),
                matched == matched_keywords(words_view(kws@), text@, k as nat),
                matched <= k,
            decreases kws@.len() - k,
        {
            if self.keyword_match(&kws[k], text, &words) {
                matched = matched + 1;
            }
            k = k + 1;
        }
        let half = kws.len() / 2;
        let needed = if half >= 1 {
            half
        } else {
            1
        };
        matched >= needed
    }

    /// The first schema entry whose text enough keywords match.
    pub fn find_by_keywords(&self, schema: &Vec<SteamAchievementSchema>, kws: &Vec<Vec<char>>) -> (r:
        Option<usize>)
        requires
            self.wf(),
        ensures
            match r {
                Some(i) => first_by_keywords(schema_view(schema@), words_view(kws@), 0) == Some(
                    i as int,
                ),
                None => first_by_keywords(schema_view(schema@), words_view(kws@), 0) is None,
            },
    {
        let mut i: usize = 0;
        while i < schema.len()
            invariant
                i <= schema@.len(),
                self.wf(),
                first_by_keywords(schema_view(schema@), words_view(kws@), 0) == first_by_keywords(
                    schema_view(schema@),
                    words_view(kws@),
                    i as int,
                ),
            decreases schema@.len() - i,
        {
            let text = text_of_entry(&schema[i]);
            if self.keywords_fit(kws, &text) {
                return Some(i);
            }
            i = i + 1;
        }
        None
    }
}

/// The first schema entry whose key is `key`.
pub fn find_by_key(schema: &Vec<SteamAchievementSchema>, key: &String) -> (r: Option<usize>)
    ensures
        match r {
            Some(i) => first_with_key(schema_view(schema@), key@, 0) == Some(i as int),
            None => first_with_key(schema_view(schema@), key@, 0) is None,
        },
{
    let mut i: usize = 0;
    while i < schema.len()
        invariant
            i <= schema@.len(),
            first_with_key(schema_view(schema@), key@, 0) == first_with_key(
                schema_view(schema@),
                key@,
                i as int,
            ),
        decreases schema@.len() - i,
    {
        if schema[i].name == *key {
            return Some(i);
        }
        i = i + 1;
    }
    None
}

/// The first schema entry whose display name in lower case is `lowered`.
pub fn find_by_name(schema: &Vec<SteamAchievementSchema>, lowered: &Vec<char>) -> (r: Option<usize>)
    ensures
        match r {
            Some(i) => first_named(schema_view(schema@), lowered@, 0) == Some(i as int),
            None => first_named(schema_view(schema@), lowered@, 0) is None,
        },
{
    let mut i: usize = 0;
    while i < schema.len()
        invariant
            i <= schema@.len(),
            first_named(schema_view(schema@), lowered@, 0) == first_named(
                schema_view(schema@),
                lowered@,
                i as int,
            ),
        decreases schema@.len() - i,
    {
        let name = lowercase(&chars_of(schema[i].display_name.as_str()));
        if same_chars(&name, lowered) {
            return Some(i);
        }
        i = i + 1;
    }
    None
}

// ---------------------------------------------------------------------------
// Numbers and prefixes in section names
// ---------------------------------------------------------------------------
/// Where the digits at the end of the first `n` characters begin.
pub open spec fn digits_start(s: Seq<char>, n: nat) -> nat
    decreases n,
{
    if n == 0 || n > s.len() || !is_digit(s[n - 1]) {
        n
    } else {
        digits_start(s, (n - 1) as nat)
    }
}

/// The number that the digits at the end of a name write, if it ends in digits.
pub open spec fn trailing_number(s: Seq<char>) -> Option<nat> {
    let start = digits_start(s, s.len());
    if start < s.len() {
        Some(decimal_value(s.subrange(start as int, s.len() as int)))
    } else {
        None
    }
}

/// The entry that a name's trailing number counts, from one, among `count`
/// entries.
pub open spec fn by_number(s: Seq<char>, count: nat) -> Option<int> {
    match trailing_number(s) {
        Some(n) => if 1 <= n <= count {
            Some(n - 1)
        } else {
            None
        },
        None => None,
    }
}

/// A character, with the letters `A` to `Z` taken to lower case.
pub open spec fn ascii_fold(c: char) -> u32 {
    if 'A' <= c <= 'Z' {
        (c as u32 + 32) as u32
    } else {
        c as u32
    }
}

/// Whether a name begins with a prefix, the case of `A` to `Z` set aside.
pub open spec fn has_prefix_folded(s: Seq<char>, prefix: Seq<char>) -> bool {
    prefix.len() <= s.len() && forall|i: int|
        0 <= i < prefix.len() ==> ascii_fold(#[trigger] s[i]) == ascii_fold(prefix[i])
}

/// A name without its prefix `ACH_` or `ACHIEVEMENT_`, in either case.
pub open spec fn without_prefix(s: Seq<char>) -> Seq<char> {
    if has_prefix_folded(s, "ACH_"@) {
        s.subrange("ACH_"@.len() as int, s.len() as int)
    } else if has_prefix_folded(s, "ACHIEVEMENT_"@) {
        s.subrange("ACHIEVEMENT_"@.len() as int, s.len() as int)
    } else {
        s
    }
}

/// The entry that a name's trailing number counts, from one, among `count`
/// entries.
pub fn index_from_number(s: &Vec<char>, count: usize) -> (r: Option<usize>)
    ensures
        match r {
            Some(i) => by_number(s@, count as nat) == Some(i as int),
            None => by_number(s@, count as nat) is None,
        },
{
    let mut start: usize = s.len();
    while start > 0 && '0' <= s[start - 1] && s[start - 1] <= '9'
        invariant
            start <= s@.len(),
            digits_start(s@, s@.len()) == digits_start(s@, start as nat),
            forall|i: int| start <= i < s@.len() ==> is_digit(#[trigger] s@[i]),
        decreases start,
    {
        start = start - 1;
    }
    if start == s.len() {
        return None;
    }
    let digits = slice(s, start, s.len());
    match parse_decimal(&digits, count as u64) {
        Some(n) => if n >= 1 {
            Some((n - 1) as usize)
        } else {
            None
        },
        None => None,
    }
}

/// Whether a name begins with a prefix, the case of `A` to `Z` set aside.
pub fn starts_with_folded(s: &Vec<char>, prefix: &Vec<char>) -> (r: bool)
    ensures
        r == has_prefix_folded(s@, prefix@),
{
    if prefix.len() > s.len() {
        return false;
    }
    let mut i: usize = 0;
    while i < prefix.len()
        invariant
            i <= prefix@.len() <= s@.len(),
            forall|j: int| 0 <= j < i ==> ascii_fold(#[trigger] s@[j]) == ascii_fold(prefix@[j]),
        decreases prefix@.len() - i,
    {
        if fold(s[i]) != fold(prefix[i]) {
            return false;
        }
        i = i + 1;
    }
    true
}

/// A character, with the letters `A` to `Z` taken to lower case.
pub fn fold(c: char) -> (r: u32)
    ensures
        r == ascii_fold(c),
{
    if 'A' <= c && c <= 'Z' {
        c as u32 + 32
    } else {
        c as u32
    }
}

/// A name without its prefix `ACH_` or `ACHIEVEMENT_`, in either case.
pub fn strip_prefix(s: &Vec<char>) -> (r: Vec<char>)
    ensures
        r@ == without_prefix(s@),
{
    let short = chars_of("ACH_");
    let long = chars_of("ACHIEVEMENT_");
    if starts_with_folded(s, &short) {
        slice(s, short.len(), s.len())
    } else if starts_with_folded(s, &long) {
        slice(s, long.len(), s.len())
    } else {
        s.clone()
    }
}

// ---------------------------------------------------------------------------
// Binding a section name
// ---------------------------------------------------------------------------
/// The schema entry that a section name is bound to, by the first of the four
/// rules that finds one.
pub open spec fn binding(section: Seq<char>, schema: Seq<SchemaEntry>) -> Option<int> {
    let cleaned = without_prefix(section);
    if first_with_key(schema, section, 0) is Some {
        first_with_key(schema, section, 0)
    } else if by_number(section, schema.len()) is Some {
        by_number(section, schema.len())
    } else if first_named(schema, lowercase_of(replaced(cleaned, '_', ' ')), 0) is Some {
        first_named(schema, lowercase_of(replaced(cleaned, '_', ' ')), 0)
    } else {
        first_by_keywords(schema, keywords(cleaned), 0)
    }
}

impl Lexicon {
    /// Binds a section name to a schema entry.
    pub fn bind(&self, section: &Vec<char>, schema: &Vec<SteamAchievementSchema>) -> (r: Option<
        usize,
    >)
        requires
            self.wf(),
        ensures
            match r {
                Some(i) => binding(section@, schema_view(schema@)) == Some(i as int),
                None => binding(section@, schema_view(schema@)) is None,
            },
    {
        let key = crate::text::string_of(section);
        let by_key = find_by_key(schema, &key);
        if by_key.is_some() {
            return by_key;
        }
        let numbered = index_from_number(section, schema.len());
        if numbered.is_some() {
            return numbered;
        }
        let cleaned = strip_prefix(section);
        let spaced = lowercase(&replace_char(&cleaned, '_', ' '));
        let named = find_by_name(schema, &spaced);
        if named.is_some() {
            return named;
        }
        let kws = extract_keywords(&cleaned);
        self.find_by_keywords(schema, &kws)
    }
}

/// Binds a section name to an entry of a schema.
pub fn bind_section(section: &str, schema: &Vec<SteamAchievementSchema>) -> (r: Option<usize>)
    ensures
        match r {
            Some(i) => binding(section@, schema_view(schema@)) == Some(i as int),
            None => binding(section@, schema_view(schema@)) is None,
        },
{
    let lex = Lexicon::new();
    lex.bind(&chars_of(section), schema)
}

/// Every binding is the place of an entry of the schema.
pub proof fn lemma_binding_in_range(section: Seq<char>, schema: Seq<SchemaEntry>)
    ensures
        binding(section, schema) matches Some(i) ==> 0 <= i < schema.len(),
{
    lemma_first_with_key(schema, section, 0);
    lemma_first_named(schema, lowercase_of(replaced(without_prefix(section), '_', ' ')), 0);
    lemma_first_by_keywords(schema, keywords(without_prefix(section)), 0);
}

/// `first_with_key` finds the first entry with the key, if there is one.
pub proof fn lemma_first_with_key(schema: Seq<SchemaEntry>, key: Seq<char>, from: int)
    requires
        0 <= from,
    ensures
        match first_with_key(schema, key, from) {
            Some(i) => from <= i < schema.len() && schema[i].name == key && forall|j: int|
                from <= j < i ==> (#[trigger] schema[j]).name != key,
            None => forall|j: int| from <= j < schema.len() ==> (#[trigger] schema[j]).name != key,
        },
    decreases schema.len() - from,
{
    if from < schema.len() && schema[from].name != key {
        lemma_first_with_key(schema, key, from + 1);
    }
}

/// `first_named` finds the first entry with the display name, if there is one.
pub proof fn lemma_first_named(schema: Seq<SchemaEntry>, lowered: Seq<char>, from: int)
    requires
        0 <= from,
    ensures
        match first_named(schema, lowered, from) {
            Some(i) => from <= i < schema.len() && lowercase_of(schema[i].display_name) == lowered
                && forall|j: int|
                from <= j < i ==> lowercase_of((#[trigger] schema[j]).display_name) != lowered,
            None => forall|j: int|
                from <= j < schema.len() ==> lowercase_of((#[trigger] schema[j]).display_name)
                    != lowered,
        },
    decreases schema.len() - from,
{
    if from < schema.len() && lowercase_of(schema[from].display_name) != lowered {
        lemma_first_named(schema, lowered, from + 1);
    }
}

/// `first_by_keywords` finds the first entry that the keywords match, if
/// there is one.
pub proof fn lemma_first_by_keywords(schema: Seq<SchemaEntry>, kws: Seq<Seq<char>>, from: int)
    requires
        0 <= from,
    ensures
        match first_by_keywords(schema, kws, from) {
            Some(i) => from <= i < schema.len() && keywords_match(kws, entry_text(schema[i]))
                && forall|j: int|
                from <= j < i ==> !keywords_match(kws, entry_text(#[trigger] schema[j])),
            None => forall|j: int|
                from <= j < schema.len() ==> !keywords_match(kws, entry_text(#[trigger] schema[j])),
        },
    decreases schema.len() - from,
{
    if from < schema.len() && !keywords_match(kws, entry_text(schema[from])) {
        lemma_first_by_keywords(schema, kws, from + 1);
    }
}

/// A segment in capitals is one word: it is not split.
pub proof fn lemma_capitals_stay_whole(seg: Seq<char>)
    requires
        all_caps(seg),
    ensures
        segment_words(seg) == seq![lowercase_of(seg)],
{
}

} // verus!

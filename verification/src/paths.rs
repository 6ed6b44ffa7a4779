//! File paths as plain values: a root and the names below it.

use crate::text::{decimal_chars, decimal_digits, string_of};
use vstd::prelude::*;

verus! {

/// A path, as a mathematical value.
pub struct PathRecord {
    pub root: Seq<char>,
    pub parts: Seq<Seq<char>>,
}

/// A path: a root directory and the names that lead down from it.
#[derive(Debug, Clone)]
pub struct FilePath {
    pub root: String,
    pub parts: Vec<String>,
}

/// The names of a list, each by its view.
pub open spec fn names(parts: Seq<String>) -> Seq<Seq<char>> {
    Seq::new(parts.len(), |i: int| parts[i]@)
}

impl View for FilePath {
    type V = PathRecord;

    open spec fn view(&self) -> PathRecord {
        PathRecord { root: self.root@, parts: names(self.parts@) }
    }
}

impl PathRecord {
    /// The path one name further down.
    pub open spec fn join(self, part: Seq<char>) -> PathRecord {
        PathRecord { root: self.root, parts: self.parts.push(part) }
    }
}

/// The path of a root directory.
pub open spec fn root_path(root: Seq<char>) -> PathRecord {
    PathRecord { root, parts: Seq::empty() }
}

/// The decimal text of a game's id.
pub open spec fn id_text(app_id: u32) -> Seq<char> {
    decimal_digits(app_id as nat)
}

impl FilePath {
    /// The path of a root directory.
    pub fn new(root: &str) -> (r: FilePath)
        ensures
            r@ == root_path(root@),
    {
        let r = FilePath { root: root.to_owned(), parts: Vec::new() };
        assert(names(r.parts@) == Seq::<Seq<char>>::empty());
        r
    }

    /// The path one name further down.
    pub fn join(&self, part: &str) -> (r: FilePath)
        ensures
            r@ == self@.join(part@),
    {
        let mut parts: Vec<String> = Vec::new();
        let mut i: usize = 0;
        while i < self.parts.len()
            invariant
                i <= self.parts@.len(),
                names(parts@) == names(self.parts@).take(i as int),
            decreases self.parts@.len() - i,
        {
            parts.push(self.parts[i].clone());
            assert(names(self.parts@).take(i + 1) == names(self.parts@).take(i as int).push(
                self.parts@[i as int]@,
            ));
            i = i + 1;
        }
        assert(names(self.parts@).take(self.parts@.len() as int) == names(self.parts@));
        let ghost before = names(parts@);
        parts.push(part.to_owned());
        assert(names(parts@) == before.push(part@));
        FilePath { root: self.root.clone(), parts }
    }

    /// A copy of the path.
    pub fn duplicate(&self) -> (r: FilePath)
        ensures
            r@ == self@,
    {
        let mut parts: Vec<String> = Vec::new();
        let mut i: usize = 0;
        while i < self.parts.len()
            invariant
                i <= self.parts@.len(),
                names(parts@) == names(self.parts@).take(i as int),
            decreases self.parts@.len() - i,
        {
            parts.push(self.parts[i].clone());
            assert(names(self.parts@).take(i + 1) == names(self.parts@).take(i as int).push(
                self.parts@[i as int]@,
            ));
            i = i + 1;
        }
        assert(names(self.parts@).take(self.parts@.len() as int) == names(self.parts@));
        FilePath { root: self.root.clone(), parts }
    }
}

/// The decimal text of a game's id.
pub fn app_id_text(app_id: u32) -> (r: String)
    ensures
        r@ == id_text(app_id),
{
    string_of(&decimal_chars(app_id as u64))
}

} // verus!

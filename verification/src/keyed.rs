//! Lists that hold one entry for a game at most, read as maps from the
//! game's id to its entry.

use vstd::prelude::*;

verus! {

/// The place of the first entry of a game among `list[from..]`.
pub open spec fn place_of<T>(list: Seq<T>, key: spec_fn(T) -> u32, id: u32, from: int) -> Option<
    int,
>
    decreases list.len() - from,
{
    if from < 0 || from >= list.len() {
        None
    } else if key(list[from]) == id {
        Some(from)
    } else {
        place_of(list, key, id, from + 1)
    }
}

/// The entry of a game.
pub open spec fn entry_of<T>(list: Seq<T>, key: spec_fn(T) -> u32, id: u32) -> Option<T> {
    match place_of(list, key, id, 0) {
        Some(i) => Some(list[i]),
        None => None,
    }
}

/// No game has two entries.
pub open spec fn distinct<T>(list: Seq<T>, key: spec_fn(T) -> u32) -> bool {
    forall|i: int, j: int| 0 <= i < j < list.len() ==> key(#[trigger] list[i]) != key(#[trigger] list[j])
}

/// `place_of` finds the first entry of the game, if there is one.
pub proof fn lemma_place_of<T>(list: Seq<T>, key: spec_fn(T) -> u32, id: u32, from: int)
    requires
        0 <= from,
    ensures
        match place_of(list, key, id, from) {
            Some(i) => from <= i < list.len() && key(list[i]) == id && forall|j: int|
                from <= j < i ==> key(#[trigger] list[j]) != id,
            None => forall|j: int| from <= j < list.len() ==> key(#[trigger] list[j]) != id,
        },
    decreases list.len() - from,
{
    if from < list.len() && key(list[from]) != id {
        lemma_place_of(list, key, id, from + 1);
    }
}

/// In a list without doubles, the entry of a game is the one entry with the
/// game's id.
pub proof fn lemma_entry_of<T>(list: Seq<T>, key: spec_fn(T) -> u32, id: u32, j: int)
    requires
        distinct(list, key),
        0 <= j < list.len(),
        key(list[j]) == id,
    ensures
        entry_of(list, key, id) == Some(list[j]),
        place_of(list, key, id, 0) == Some(j),
{
    lemma_place_of(list, key, id, 0);
}

/// A list without an entry of a game has no entry of the game.
pub proof fn lemma_no_entry<T>(list: Seq<T>, key: spec_fn(T) -> u32, id: u32)
    requires
        forall|j: int| 0 <= j < list.len() ==> key(#[trigger] list[j]) != id,
    ensures
        entry_of(list, key, id) is None,
{
    lemma_place_of(list, key, id, 0);
}

/// Replacing the entry of a game changes the entry of that game only.
pub proof fn lemma_updated<T>(list: Seq<T>, key: spec_fn(T) -> u32, i: int, added: T)
    requires
        distinct(list, key),
        0 <= i < list.len(),
        key(list[i]) == key(added),
    ensures
        distinct(list.update(i, added), key),
        entry_of(list.update(i, added), key, key(added)) == Some(added),
        forall|id: u32|
            id != key(added) ==> entry_of(list.update(i, added), key, id) == entry_of(list, key, id),
{
    let after = list.update(i, added);
    assert forall|a: int, b: int| 0 <= a < b < after.len() implies key(#[trigger] after[a]) != key(
        #[trigger] after[b],
    ) by {}
    lemma_entry_of(after, key, key(added), i);
    assert forall|id: u32| id != key(added) implies entry_of(after, key, id) == entry_of(
        list,
        key,
        id,
    ) by {
        lemma_place_of(list, key, id, 0);
        match place_of(list, key, id, 0) {
            Some(j) => {
                lemma_entry_of(after, key, id, j);
            },
            None => {
                assert forall|j: int| 0 <= j < after.len() implies key(#[trigger] after[j])
                    != id by {}
                lemma_no_entry(after, key, id);
            },
        }
    }
}

/// Adding an entry for a game without one changes the entry of that game
/// only.
pub proof fn lemma_pushed<T>(list: Seq<T>, key: spec_fn(T) -> u32, added: T)
    requires
        distinct(list, key),
        forall|j: int| 0 <= j < list.len() ==> key(#[trigger] list[j]) != key(added),
    ensures
        distinct(list.push(added), key),
        entry_of(list.push(added), key, key(added)) == Some(added),
        forall|id: u32|
            id != key(added) ==> entry_of(list.push(added), key, id) == entry_of(list, key, id),
{
    let after = list.push(added);
    assert forall|a: int, b: int| 0 <= a < b < after.len() implies key(#[trigger] after[a]) != key(
        #[trigger] after[b],
    ) by {}
    lemma_entry_of(after, key, key(added), list.len() as int);
    assert forall|id: u32| id != key(added) implies entry_of(after, key, id) == entry_of(
        list,
        key,
        id,
    ) by {
        lemma_place_of(list, key, id, 0);
        match place_of(list, key, id, 0) {
            Some(j) => {
                lemma_entry_of(after, key, id, j);
            },
            None => {
                assert forall|j: int| 0 <= j < after.len() implies key(#[trigger] after[j])
                    != id by {}
                lemma_no_entry(after, key, id);
            },
        }
    }
}

/// Removing the entry of a game changes the entry of that game only.
pub proof fn lemma_removed<T>(list: Seq<T>, key: spec_fn(T) -> u32, i: int)
    requires
        distinct(list, key),
        0 <= i < list.len(),
    ensures
        distinct(list.remove(i), key),
        entry_of(list.remove(i), key, key(list[i])) is None,
        forall|id: u32|
            id != key(list[i]) ==> entry_of(list.remove(i), key, id) == entry_of(list, key, id),
{
    let after = list.remove(i);
    assert forall|j: int| 0 <= j < after.len() implies key(#[trigger] after[j]) != key(list[i]) by {
        let j2 = if j < i {
            j
        } else {
            j + 1
        };
    }
    lemma_no_entry(after, key, key(list[i]));
    assert forall|id: u32| id != key(list[i]) implies entry_of(after, key, id) == entry_of(
        list,
        key,
        id,
    ) by {
        lemma_place_of(list, key, id, 0);
        match place_of(list, key, id, 0) {
            Some(j) => {
                let j2 = if j < i {
                    j
                } else {
                    j - 1
                };
                lemma_entry_of(after, key, id, j2);
            },
            None => {
                lemma_no_entry(after, key, id);
            },
        }
    }
}

} // verus!

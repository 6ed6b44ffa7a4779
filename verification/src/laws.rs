//! Laws of the engine: what holds of the store, of scans and bindings, of
//! reparses, of backups and of the debounce, whatever the inputs are.

use crate::achievement_scanner::{
    cache_list, cache_log, cache_rows, CacheList, goldberg_rows, goldberg_stray_rows, ini_rows,
    is_stray, item_status, merged_list, merged_status, schema_named, status_known, StatusRecord,
    stored,
};
use crate::json::member_from;
use crate::achievement_watcher::{
    after_event, after_poll, asks_reparse, DEBOUNCE_MS, FileEventKind, row_for_key, unlock_run,
    unlock_step, UnlockRecord,
};
use crate::achievements::{
    AchievementDatabase, AchievementRecord, all_games, backup_of_row, backup_time, BackupRecord,
    exported, exported_game, game_listing, insertion_place, lemma_insertion_place,
    lemma_listing_rows, lemma_name_place, lemma_position_from, lemma_without_game,
    lemma_without_scanned, name_place, ordered_by_name, position_of, ProviderTag, restored,
    row_with_id, rows_of_game, summaries, summary_of_row, summary_place, summary_with_row,
    SummaryRecord, upserted, with_status, without_game, without_scanned,
};
use crate::arbiter::bound;
use crate::ini::SectionRecord;
use crate::json::JsonModel;
use crate::steam_achievements::{ProgressRecord, RateRecord, remote_rows, SchemaEntry};
use crate::steam_monitor::{executables_among, FoundRecord, is_known_file};
use crate::text::{precedes_from, sorted_texts, text_place, text_precedes};
use vstd::prelude::*;

verus! {

/// In a well-formed store, every row with an unlock time is unlocked.
pub proof fn lemma_unlock_time_means_unlocked(db: &AchievementDatabase, i: int)
    requires
        db.wf(),
        0 <= i < db@.len(),
        db@[i].unlock_time is Some,
    ensures
        db@[i].achieved,
{
}

/// Whether all scanned rows of a game in a table come from one provider.
pub open spec fn single_provider(rows: Seq<AchievementRecord>, app_id: u32) -> bool {
    forall|i: int, j: int|
        0 <= i < rows.len() && 0 <= j < rows.len() && (#[trigger] rows[i]).app_id == app_id && (
        #[trigger] rows[j]).app_id == app_id && rows[i].source != ProviderTag::Manual
            && rows[j].source != ProviderTag::Manual ==> rows[i].source == rows[j].source
}

/// Whether every row of a list is a row of this game under this provider.
pub open spec fn rows_of_provider(list: Seq<AchievementRecord>, app_id: u32, source: ProviderTag)
    -> bool {
    forall|k: int|
        0 <= k < list.len() ==> (#[trigger] list[k]).app_id == app_id && list[k].source == source
}

/// Whether a property of rows does not depend on a row's id, nor on the
/// time of its last write.
pub open spec fn ignores_id(pred: spec_fn(AchievementRecord) -> bool) -> bool {
    forall|r: AchievementRecord, id: Option<i64>, time: i64|
        pred(r) ==> #[trigger] pred(AchievementRecord { id, last_updated: time, ..r })
}

/// Writing rows keeps what holds of every row of the table and of every row
/// written, if it depends neither on a row's id nor on the time of its last
/// write.
pub proof fn lemma_stored_keeps(
    rows: Seq<AchievementRecord>,
    next_id: int,
    list: Seq<AchievementRecord>,
    n: nat,
    pred: spec_fn(AchievementRecord) -> bool,
)
    requires
        n <= list.len(),
        ignores_id(pred),
        forall|i: int| 0 <= i < rows.len() ==> pred(#[trigger] rows[i]),
        forall|k: int| 0 <= k < n ==> pred(#[trigger] list[k]),
        stored(rows, next_id, list, n) is Some,
    ensures
        forall|i: int|
            0 <= i < stored(rows, next_id, list, n).unwrap().0.len() ==> pred(
                #[trigger] stored(rows, next_id, list, n).unwrap().0[i],
            ),
    decreases n,
{
    if n > 0 {
        lemma_stored_keeps(rows, next_id, list, (n - 1) as nat, pred);
        let (table, id) = stored(rows, next_id, list, (n - 1) as nat).unwrap();
        let a = list[n - 1];
        let after = stored(rows, next_id, list, n).unwrap().0;
        lemma_position_from(table, a.app_id, a.achievement_id, a.source, 0);
        match position_of(table, a.app_id, a.achievement_id, a.source) {
            Some(p) => {
                assert forall|i: int| 0 <= i < after.len() implies pred(#[trigger] after[i]) by {}
            },
            None => {
            },
        }
    }
}

/// After a game was bound to a provider, all scanned rows of the game come
/// from that provider.
pub proof fn lemma_bound_single_provider(
    rows: Seq<AchievementRecord>,
    next_id: int,
    app_id: u32,
    scan: crate::arbiter::ScanRecord,
)
    requires
        rows_of_provider(scan.rows, app_id, scan.source),
        bound(rows, next_id, app_id, scan) is Some,
    ensures
        single_provider(bound(rows, next_id, app_id, scan).unwrap().0, app_id),
        forall|i: int|
            0 <= i < bound(rows, next_id, app_id, scan).unwrap().0.len() ==> {
                let r = #[trigger] bound(rows, next_id, app_id, scan).unwrap().0[i];
                r.app_id == app_id && r.source != ProviderTag::Manual ==> r.source == scan.source
            },
{
    let cleared = without_scanned(rows, app_id, rows.len());
    lemma_without_scanned(rows, app_id, rows.len());
    let source = scan.source;
    let pred = |r: AchievementRecord|
        r.app_id == app_id && r.source != ProviderTag::Manual ==> r.source == source;
    assert forall|k: int| 0 <= k < scan.rows.len() implies pred(#[trigger] scan.rows[k]) by {}
    lemma_stored_keeps(cleared, next_id, scan.rows, scan.rows.len(), pred);
    let after = bound(rows, next_id, app_id, scan).unwrap().0;
    assert forall|i: int| 0 <= i < after.len() implies {
        let r = #[trigger] after[i];
        r.app_id == app_id && r.source != ProviderTag::Manual ==> r.source == source
    } by {}
}

/// Binding a game leaves the scanned rows of every other game to the
/// provider they came from.
pub proof fn lemma_bound_keeps_other_games(
    rows: Seq<AchievementRecord>,
    next_id: int,
    app_id: u32,
    scan: crate::arbiter::ScanRecord,
    other: u32,
    source: ProviderTag,
)
    requires
        other != app_id,
        rows_of_provider(scan.rows, app_id, scan.source),
        bound(rows, next_id, app_id, scan) is Some,
        forall|i: int|
            0 <= i < rows.len() && (#[trigger] rows[i]).app_id == other && rows[i].source
                != ProviderTag::Manual ==> rows[i].source == source,
    ensures
        forall|i: int|
            0 <= i < bound(rows, next_id, app_id, scan).unwrap().0.len() ==> {
                let r = #[trigger] bound(rows, next_id, app_id, scan).unwrap().0[i];
                r.app_id == other && r.source != ProviderTag::Manual ==> r.source == source
            },
{
    let cleared = without_scanned(rows, app_id, rows.len());
    lemma_without_scanned(rows, app_id, rows.len());
    let pred = |r: AchievementRecord|
        r.app_id == other && r.source != ProviderTag::Manual ==> r.source == source;
    assert forall|i: int| 0 <= i < cleared.len() implies pred(#[trigger] cleared[i]) by {
        let at = choose|at: Seq<int>|
            at.len() == cleared.len() && (forall|k: int|
                0 <= k < at.len() ==> 0 <= #[trigger] at[k] < rows.len() && cleared[k]
                    == rows[at[k]]) && (forall|k: int, l: int|
                0 <= k < l < at.len() ==> #[trigger] at[k] < #[trigger] at[l]);
        assert(cleared[i] == rows[at[i]]);
    }
    lemma_stored_keeps(cleared, next_id, scan.rows, scan.rows.len(), pred);
    let after = bound(rows, next_id, app_id, scan).unwrap().0;
    assert forall|i: int| 0 <= i < after.len() implies {
        let r = #[trigger] after[i];
        r.app_id == other && r.source != ProviderTag::Manual ==> r.source == source
    } by {}
}

/// How many of the first `n` rows belong to a game.
pub open spec fn game_count(rows: Seq<AchievementRecord>, app_id: u32, n: nat) -> nat
    decreases n,
{
    if n == 0 || n > rows.len() {
        0
    } else if rows[n - 1].app_id == app_id {
        game_count(rows, app_id, (n - 1) as nat) + 1
    } else {
        game_count(rows, app_id, (n - 1) as nat)
    }
}

/// A listing is as long as the game has rows.
pub proof fn lemma_listing_len(rows: Seq<AchievementRecord>, app_id: u32, n: nat)
    requires
        n <= rows.len(),
    ensures
        game_listing(rows, app_id, n).len() == game_count(rows, app_id, n),
    decreases n,
{
    if n > 0 {
        lemma_listing_len(rows, app_id, (n - 1) as nat);
        let before = game_listing(rows, app_id, (n - 1) as nat);
        lemma_insertion_place(before, rows[n - 1].achievement_id, 0);
    }
}

/// The count over the first rows does not depend on the rows behind them.
pub proof fn lemma_game_count_prefix(
    a: Seq<AchievementRecord>,
    b: Seq<AchievementRecord>,
    app_id: u32,
    n: nat,
)
    requires
        n <= a.len(),
        n <= b.len(),
        forall|i: int| 0 <= i < n ==> a[i] == b[i],
    ensures
        game_count(a, app_id, n) == game_count(b, app_id, n),
    decreases n,
{
    if n > 0 {
        lemma_game_count_prefix(a, b, app_id, (n - 1) as nat);
    }
}

/// Whether no two rows of a list have the same key.
pub open spec fn keys_distinct(list: Seq<AchievementRecord>) -> bool {
    forall|i: int, j: int|
        0 <= i < j < list.len() ==> (#[trigger] list[i]).achievement_id != (
        #[trigger] list[j]).achievement_id
}

/// Writing rows of one game and provider with distinct keys into a table
/// without rows of the game adds each of them: the table grows by one row of
/// the game for each row written, and every row of the game comes from the
/// provider.
pub proof fn lemma_stored_fresh(
    rows: Seq<AchievementRecord>,
    next_id: int,
    app_id: u32,
    source: ProviderTag,
    list: Seq<AchievementRecord>,
    n: nat,
)
    requires
        n <= list.len(),
        rows_of_provider(list, app_id, source),
        keys_distinct(list),
        forall|i: int| 0 <= i < rows.len() ==> (#[trigger] rows[i]).app_id != app_id,
        stored(rows, next_id, list, n) is Some,
    ensures
        ({
            let after = stored(rows, next_id, list, n).unwrap().0;
            &&& after.len() == rows.len() + n
            &&& forall|i: int| 0 <= i < rows.len() ==> after[i] == rows[i]
            &&& forall|k: int|
                0 <= k < n ==> (#[trigger] after[rows.len() + k]).with_id(None) == list[k].with_id(
                    None,
                )
            &&& game_count(after, app_id, after.len()) == n
        }),
    decreases n,
{
    if n == 0 {
        lemma_no_rows_of_game(rows, app_id, rows.len());
    } else {
        lemma_stored_fresh(rows, next_id, app_id, source, list, (n - 1) as nat);
        let (table, id) = stored(rows, next_id, list, (n - 1) as nat).unwrap();
        let a = list[n - 1];
        let after = stored(rows, next_id, list, n).unwrap().0;
        lemma_position_from(table, a.app_id, a.achievement_id, a.source, 0);
        assert forall|i: int| 0 <= i < table.len() implies !(#[trigger] table[i]).is_for(
            a.app_id,
            a.achievement_id,
            a.source,
        ) by {
            if i >= rows.len() {
                let k = i - rows.len();
                assert(table[rows.len() + k].with_id(None) == list[k].with_id(None));
            }
        }
        lemma_game_count_prefix(after, table, app_id, table.len());
    }
}

/// A table without rows of a game counts none.
pub proof fn lemma_no_rows_of_game(rows: Seq<AchievementRecord>, app_id: u32, n: nat)
    requires
        n <= rows.len(),
        forall|i: int| 0 <= i < rows.len() ==> (#[trigger] rows[i]).app_id != app_id,
    ensures
        game_count(rows, app_id, n) == 0,
    decreases n,
{
    if n > 0 {
        lemma_no_rows_of_game(rows, app_id, (n - 1) as nat);
    }
}

/// After all rows of a game were removed and the rows of a scan written,
/// the game has as many rows as the scan gave, and each comes from the
/// scan's provider. The scan's rows must be rows of the game under that
/// provider, with distinct keys.
pub proof fn lemma_rescan_after_delete(
    rows: Seq<AchievementRecord>,
    next_id: int,
    app_id: u32,
    source: ProviderTag,
    list: Seq<AchievementRecord>,
)
    requires
        rows_of_provider(list, app_id, source),
        keys_distinct(list),
        stored(without_game(rows, app_id, rows.len()), next_id, list, list.len()) is Some,
    ensures
        ({
            let after = stored(
                without_game(rows, app_id, rows.len()),
                next_id,
                list,
                list.len(),
            ).unwrap().0;
            &&& rows_of_game(after, app_id).len() == list.len()
            &&& forall|i: int|
                0 <= i < after.len() && (#[trigger] after[i]).app_id == app_id ==> after[i].source
                    == source
        }),
{
    let cleared = without_game(rows, app_id, rows.len());
    lemma_without_game(rows, app_id, rows.len());
    lemma_stored_fresh(cleared, next_id, app_id, source, list, list.len());
    let after = stored(cleared, next_id, list, list.len()).unwrap().0;
    lemma_listing_len(after, app_id, after.len());
    assert forall|i: int| 0 <= i < after.len() && (#[trigger] after[i]).app_id
        == app_id implies after[i].source == source by {
        if i >= cleared.len() {
            let k = i - cleared.len();
            assert(after[cleared.len() + k].with_id(None) == list[k].with_id(None));
        }
    }
}

// ---------------------------------------------------------------------------
// Reparses
// ---------------------------------------------------------------------------
/// Whether a table is a later state of another under the writes of a
/// watcher: the same rows, of which some were unlocked and none was locked,
/// and none with an earlier time of its last write.
pub open spec fn later_state(a: Seq<AchievementRecord>, b: Seq<AchievementRecord>) -> bool {
    a.len() == b.len() && forall|i: int|
        0 <= i < a.len() ==> (#[trigger] b[i]).same_identity(a[i]) && b[i].id == a[i].id && (
        a[i].achieved ==> b[i].achieved) && b[i].last_updated >= a[i].last_updated
}

/// Whether the row that a game has for a key was locked in one table and is
/// unlocked in another.
pub open spec fn newly_unlocked(
    before: Seq<AchievementRecord>,
    after: Seq<AchievementRecord>,
    app_id: u32,
    key: Seq<char>,
) -> bool {
    match row_for_key(before, app_id, key, before.len()) {
        Some(i) => 0 <= i < before.len() && i < after.len() && before[i].app_id == app_id
            && before[i].achievement_id == key && !before[i].achieved && after[i].achieved
            && after[i].same_identity(before[i]),
        None => false,
    }
}

/// The row of a key is a row of the game with the key.
pub proof fn lemma_row_for_key(rows: Seq<AchievementRecord>, app_id: u32, key: Seq<char>, n: nat)
    requires
        n <= rows.len(),
    ensures
        row_for_key(rows, app_id, key, n) matches Some(i) ==> 0 <= i < n && rows[i].app_id == app_id
            && rows[i].achievement_id == key,
    decreases n,
{
    if n > 0 {
        lemma_row_for_key(rows, app_id, key, (n - 1) as nat);
    }
}

/// In a later state, the row of a key is at the same place.
pub proof fn lemma_row_for_key_later(
    a: Seq<AchievementRecord>,
    b: Seq<AchievementRecord>,
    app_id: u32,
    key: Seq<char>,
    n: nat,
)
    requires
        later_state(a, b),
        n <= a.len(),
    ensures
        row_for_key(a, app_id, key, n) == row_for_key(b, app_id, key, n),
    decreases n,
{
    if n > 0 {
        lemma_row_for_key_later(a, b, app_id, key, (n - 1) as nat);
    }
}

/// One step of a reparse gives a later state. It gives an event only for a
/// row that was locked, and the row is unlocked afterwards.
pub proof fn lemma_unlock_step(
    rows: Seq<AchievementRecord>,
    app_id: u32,
    game_name: Seq<char>,
    source: ProviderTag,
    entry: UnlockRecord,
    rates: Option<Seq<RateRecord>>,
    now: i64,
)
    ensures
        later_state(rows, unlock_step(rows, app_id, game_name, source, entry, rates, now).0),
        match unlock_step(rows, app_id, game_name, source, entry, rates, now).1 {
            Some(e) => e.app_id == app_id && e.achievement_id == entry.achievement_id
                && newly_unlocked(
                rows,
                unlock_step(rows, app_id, game_name, source, entry, rates, now).0,
                app_id,
                entry.achievement_id,
            ),
            None => unlock_step(rows, app_id, game_name, source, entry, rates, now).0 == rows,
        },
{
    lemma_row_for_key(rows, app_id, entry.achievement_id, rows.len());
}

/// A later state of a later state is a later state.
pub proof fn lemma_later_state_chain(
    a: Seq<AchievementRecord>,
    b: Seq<AchievementRecord>,
    c: Seq<AchievementRecord>,
)
    requires
        later_state(a, b),
        later_state(b, c),
    ensures
        later_state(a, c),
{
}

/// What a reparse does: it gives a later state of the table; every event is
/// for a row of the game that was locked before the reparse and is unlocked
/// after it; and no two events are for the same key.
pub proof fn lemma_unlock_run(
    rows: Seq<AchievementRecord>,
    app_id: u32,
    game_name: Seq<char>,
    source: ProviderTag,
    entries: Seq<UnlockRecord>,
    rates: Option<Seq<RateRecord>>,
    now: i64,
    n: nat,
)
    requires
        n <= entries.len(),
    ensures
        ({
            let (table, events) = unlock_run(
                rows,
                app_id,
                game_name,
                source,
                entries,
                rates,
                now,
                n,
            );
            &&& later_state(rows, table)
            &&& forall|j: int|
                0 <= j < events.len() ==> (#[trigger] events[j]).app_id == app_id
                    && newly_unlocked(rows, table, app_id, events[j].achievement_id)
            &&& forall|j: int, k: int|
                0 <= j < k < events.len() ==> (#[trigger] events[j]).achievement_id != (
                #[trigger] events[k]).achievement_id
        }),
    decreases n,
{
    if n > 0 {
        lemma_unlock_run(rows, app_id, game_name, source, entries, rates, now, (n - 1) as nat);
        let (before, earlier) = unlock_run(
            rows,
            app_id,
            game_name,
            source,
            entries,
            rates,
            now,
            (n - 1) as nat,
        );
        let entry = entries[n - 1];
        let (table, event) = unlock_step(before, app_id, game_name, source, entry, rates, now);
        let events = unlock_run(rows, app_id, game_name, source, entries, rates, now, n).1;
        lemma_unlock_step(before, app_id, game_name, source, entry, rates, now);
        lemma_later_state_chain(rows, before, table);
        lemma_row_for_key_later(rows, before, app_id, entry.achievement_id, rows.len());
        assert forall|j: int| 0 <= j < events.len() implies (#[trigger] events[j]).app_id == app_id
            && newly_unlocked(rows, table, app_id, events[j].achievement_id) by {
            if j < earlier.len() {
                lemma_row_for_key(rows, app_id, earlier[j].achievement_id, rows.len());
            } else {
                lemma_row_for_key(before, app_id, entry.achievement_id, before.len());
            }
        }
    }
}

/// No key has an event in two reparses, one after the other: a row that a
/// reparse unlocked gives no event again.
pub proof fn lemma_one_event_per_key(
    rows: Seq<AchievementRecord>,
    app_id: u32,
    game_name: Seq<char>,
    source: ProviderTag,
    first: Seq<UnlockRecord>,
    second: Seq<UnlockRecord>,
    rates: Option<Seq<RateRecord>>,
    now: i64,
    later: i64,
)
    ensures
        ({
            let (table, events) = unlock_run(
                rows,
                app_id,
                game_name,
                source,
                first,
                rates,
                now,
                first.len(),
            );
            let again = unlock_run(
                table,
                app_id,
                game_name,
                source,
                second,
                rates,
                later,
                second.len(),
            ).1;
            forall|j: int, k: int|
                0 <= j < events.len() && 0 <= k < again.len() ==> (
                #[trigger] events[j]).achievement_id != (#[trigger] again[k]).achievement_id
        }),
{
    lemma_unlock_run(rows, app_id, game_name, source, first, rates, now, first.len());
    let (table, events) = unlock_run(
        rows,
        app_id,
        game_name,
        source,
        first,
        rates,
        now,
        first.len(),
    );
    lemma_unlock_run(table, app_id, game_name, source, second, rates, later, second.len());
    let again = unlock_run(table, app_id, game_name, source, second, rates, later, second.len()).1;
    assert forall|j: int, k: int| 0 <= j < events.len() && 0 <= k < again.len() implies (
    #[trigger] events[j]).achievement_id != (#[trigger] again[k]).achievement_id by {
        if events[j].achievement_id == again[k].achievement_id {
            lemma_row_for_key_later(rows, table, app_id, events[j].achievement_id, rows.len());
        }
    }
}

// ---------------------------------------------------------------------------
// Backups
// ---------------------------------------------------------------------------
/// What a backup holds for a key does not depend on the entries behind.
pub proof fn lemma_backup_time_prefix(
    a: Seq<BackupRecord>,
    b: Seq<BackupRecord>,
    key: Seq<char>,
    n: nat,
)
    requires
        n <= a.len(),
        n <= b.len(),
        forall|i: int| 0 <= i < n ==> a[i] == b[i],
    ensures
        backup_time(a, key, n) == backup_time(b, key, n),
    decreases n,
{
    if n > 0 {
        lemma_backup_time_prefix(a, b, key, (n - 1) as nat);
    }
}

/// What the backup of a listing holds for a key: the time of the last
/// unlocked row with the key; nothing without such a row.
pub proof fn lemma_exported_time(listing: Seq<AchievementRecord>, key: Seq<char>, n: nat)
    requires
        n <= listing.len(),
    ensures
        match backup_time(exported(listing, n), key, exported(listing, n).len()) {
            Some(t) => exists|k: int|
                0 <= k < n && (#[trigger] listing[k]).achieved && listing[k].achievement_id == key
                    && t == backup_of_row(listing[k]).unlock_time,
            None => forall|k: int|
                0 <= k < n ==> !((#[trigger] listing[k]).achieved && listing[k].achievement_id
                    == key),
        },
    decreases n,
{
    if n > 0 {
        lemma_exported_time(listing, key, (n - 1) as nat);
        let before = exported(listing, (n - 1) as nat);
        let row = listing[n - 1];
        if row.achieved && row.achievement_id != key {
            lemma_backup_time_prefix(before.push(backup_of_row(row)), before, key, before.len());
        }
    }
}

/// Export, then restore: a row of the game whose key an unlocked row of the
/// game had when the backup was made is unlocked again, at the time that row
/// had, known or not. The game must have had one row of that key only, and
/// the time of that row, where it was known, must not have been the zero
/// that stands for a time not known.
pub proof fn lemma_restore_after_export(
    before: Seq<AchievementRecord>,
    after: Seq<AchievementRecord>,
    app_id: u32,
    now: i64,
    i: int,
    j: int,
)
    requires
        0 <= i < before.len(),
        before[i].app_id == app_id,
        before[i].achieved,
        before[i].unlock_time != Some(0i64),
        forall|k: int|
            0 <= k < before.len() && (#[trigger] before[k]).app_id == app_id
                && before[k].achievement_id == before[i].achievement_id ==> before[k] == before[i],
        0 <= j < after.len(),
        after[j].app_id == app_id,
        after[j].achievement_id == before[i].achievement_id,
    ensures
        restored(after, app_id, exported_game(before, app_id), now)[j].achieved,
        restored(after, app_id, exported_game(before, app_id), now)[j].unlock_time
            == before[i].unlock_time,
{
    let listing = rows_of_game(before, app_id);
    let key = before[i].achievement_id;
    lemma_listing_rows(before, app_id, before.len());
    lemma_exported_time(listing, key, listing.len());
}

/// Restore leaves alone every row whose key the backup does not hold, and
/// every row of another game.
pub proof fn lemma_restore_leaves_others(
    rows: Seq<AchievementRecord>,
    app_id: u32,
    backup: Seq<BackupRecord>,
    now: i64,
    j: int,
)
    requires
        0 <= j < rows.len(),
        rows[j].app_id != app_id || backup_time(backup, rows[j].achievement_id, backup.len())
            is None,
    ensures
        restored(rows, app_id, backup, now)[j] == rows[j],
{
}

// ---------------------------------------------------------------------------
// The platform's cache
// ---------------------------------------------------------------------------
/// What the entries say of a key does not depend on the entries behind.
pub proof fn lemma_status_known_prefix(
    a: Seq<StatusRecord>,
    b: Seq<StatusRecord>,
    key: Seq<char>,
    n: nat,
)
    requires
        n <= a.len(),
        n <= b.len(),
        forall|i: int| 0 <= i < n ==> a[i] == b[i],
    ensures
        status_known(a, key, n) == status_known(b, key, n),
    decreases n,
{
    if n > 0 {
        lemma_status_known_prefix(a, b, key, (n - 1) as nat);
    }
}

/// Whether the entries say that a key is unlocked.
pub open spec fn says_unlocked(log: Seq<StatusRecord>, key: Seq<char>) -> bool {
    status_known(log, key, log.len()) matches Some(s) && s.achieved
}

/// Taking in one more status does not lock what was unlocked, and an
/// unlocked status unlocks its key.
pub proof fn lemma_merged_status(log: Seq<StatusRecord>, status: StatusRecord, key: Seq<char>)
    ensures
        says_unlocked(log, key) ==> says_unlocked(merged_status(log, status), key),
        status.achieved && status.key == key ==> says_unlocked(merged_status(log, status), key),
{
    let after = merged_status(log, status);
    if after != log {
        lemma_status_known_prefix(after, log, key, log.len());
    }
}

/// Taking in a list does not lock what was unlocked, and unlocks the key of
/// every item of the list that is unlocked.
pub proof fn lemma_merged_list(
    log: Seq<StatusRecord>,
    items: Seq<JsonModel>,
    list: CacheList,
    n: nat,
    key: Seq<char>,
)
    requires
        n <= items.len(),
    ensures
        says_unlocked(log, key) ==> says_unlocked(merged_list(log, items, list, n), key),
        forall|m: int|
            0 <= m < n && (item_status(#[trigger] items[m], list) matches Some(s) && s.achieved
                && s.key == key) ==> says_unlocked(merged_list(log, items, list, n), key),
    decreases n,
{
    if n > 0 {
        lemma_merged_list(log, items, list, (n - 1) as nat, key);
        let before = merged_list(log, items, list, (n - 1) as nat);
        match item_status(items[n - 1], list) {
            Some(status) => {
                lemma_merged_status(before, status, key);
            },
            None => {},
        }
    }
}

/// An achievement that one list of the cache gives as unlocked is unlocked,
/// whatever the other lists say of it.
pub proof fn lemma_unlocked_wins(data: JsonModel, list: CacheList, m: int, key: Seq<char>)
    requires
        0 <= m < cache_list(data, list).len(),
        item_status(cache_list(data, list)[m], list) matches Some(s) && s.achieved && s.key == key,
    ensures
        says_unlocked(cache_log(data), key),
{
    let highlight = cache_list(data, CacheList::Highlight);
    let unachieved = cache_list(data, CacheList::Unachieved);
    let hidden = cache_list(data, CacheList::AchievedHidden);
    let first = merged_list(Seq::empty(), highlight, CacheList::Highlight, highlight.len());
    let second = merged_list(first, unachieved, CacheList::Unachieved, unachieved.len());
    lemma_merged_list(Seq::empty(), highlight, CacheList::Highlight, highlight.len(), key);
    lemma_merged_list(first, unachieved, CacheList::Unachieved, unachieved.len(), key);
    lemma_merged_list(second, hidden, CacheList::AchievedHidden, hidden.len(), key);
}

// ---------------------------------------------------------------------------
// The order of a listing
// ---------------------------------------------------------------------------
/// No text comes before itself.
pub proof fn lemma_precedes_irreflexive(a: Seq<char>, i: int)
    requires
        0 <= i,
    ensures
        !precedes_from(a, a, i),
    decreases a.len() - i,
{
    if i < a.len() {
        lemma_precedes_irreflexive(a, i + 1);
    }
}

/// The order of texts is transitive.
pub proof fn lemma_precedes_transitive(a: Seq<char>, b: Seq<char>, c: Seq<char>, i: int)
    requires
        0 <= i,
        precedes_from(a, b, i),
        precedes_from(b, c, i),
    ensures
        precedes_from(a, c, i),
    decreases c.len() - i,
{
    if i < a.len() && a[i] == b[i] && b[i] == c[i] {
        lemma_precedes_transitive(a, b, c, i + 1);
    }
}

/// Whether a listing is in the order of its keys.
pub open spec fn ordered_by_key(listing: Seq<AchievementRecord>) -> bool {
    forall|p: int, q: int|
        0 <= p < q < listing.len() ==> !text_precedes(
            (#[trigger] listing[q]).achievement_id,
            (#[trigger] listing[p]).achievement_id,
        )
}

/// Where a row is put into a listing: behind every row whose key does not
/// come after its key, and before a row whose key comes after its key.
pub proof fn lemma_insertion_place_order(rows: Seq<AchievementRecord>, key: Seq<char>, from: int)
    requires
        0 <= from <= rows.len(),
    ensures
        forall|p: int|
            from <= p < insertion_place(rows, key, from) ==> !text_precedes(
                key,
                (#[trigger] rows[p]).achievement_id,
            ),
        insertion_place(rows, key, from) < rows.len() ==> text_precedes(
            key,
            rows[insertion_place(rows, key, from)].achievement_id,
        ),
    decreases rows.len() - from,
{
    if from < rows.len() && !text_precedes(key, rows[from].achievement_id) {
        lemma_insertion_place_order(rows, key, from + 1);
    }
}

/// The rows of a game are listed in the order of their keys.
pub proof fn lemma_listing_ordered(rows: Seq<AchievementRecord>, app_id: u32, n: nat)
    requires
        n <= rows.len(),
    ensures
        ordered_by_key(game_listing(rows, app_id, n)),
    decreases n,
{
    if n > 0 {
        lemma_listing_ordered(rows, app_id, (n - 1) as nat);
        let before = game_listing(rows, app_id, (n - 1) as nat);
        let row = rows[n - 1];
        if row.app_id == app_id {
            let key = row.achievement_id;
            let at = insertion_place(before, key, 0);
            lemma_insertion_place(before, key, 0);
            lemma_insertion_place_order(before, key, 0);
            let after = before.insert(at, row);
            assert forall|p: int, q: int| 0 <= p < q < after.len() implies !text_precedes(
                (#[trigger] after[q]).achievement_id,
                (#[trigger] after[p]).achievement_id,
            ) by {
                if q > at && p == at {
                    let other = before[q - 1].achievement_id;
                    if text_precedes(other, key) {
                        lemma_precedes_transitive(other, key, before[at].achievement_id, 0);
                        if q - 1 == at {
                            lemma_precedes_irreflexive(other, 0);
                        }
                    }
                }
            }
        }
    }
}

// ---------------------------------------------------------------------------
// The rows of a scan
// ---------------------------------------------------------------------------
/// Whether no two entries of a schema have the same key.
pub open spec fn schema_keys_distinct(schema: Seq<SchemaEntry>) -> bool {
    forall|i: int, j: int|
        0 <= i < j < schema.len() ==> (#[trigger] schema[i]).name != (#[trigger] schema[j]).name
}

/// A scan of the INI emulator gives one row of the game for each schema
/// entry, with the entry's key.
pub proof fn lemma_ini_rows(
    app_id: u32,
    game_name: Seq<char>,
    schema: Seq<SchemaEntry>,
    sections: Seq<SectionRecord>,
    rates: Option<Seq<RateRecord>>,
    now: i64,
)
    ensures
        ini_rows(app_id, game_name, schema, sections, rates, now).len() == schema.len(),
        rows_of_provider(
            ini_rows(app_id, game_name, schema, sections, rates, now),
            app_id,
            ProviderTag::EmulatorB,
        ),
        schema_keys_distinct(schema) ==> keys_distinct(
            ini_rows(app_id, game_name, schema, sections, rates, now),
        ),
{
    let rows = ini_rows(app_id, game_name, schema, sections, rates, now);
    if schema_keys_distinct(schema) {
        assert forall|i: int, j: int| 0 <= i < j < rows.len() implies (
        #[trigger] rows[i]).achievement_id != (#[trigger] rows[j]).achievement_id by {}
    }
}

/// A scan of the platform's cache gives one row of the game for each schema
/// entry, with the entry's key.
pub proof fn lemma_cache_rows(
    app_id: u32,
    game_name: Seq<char>,
    schema: Seq<SchemaEntry>,
    log: Seq<StatusRecord>,
    rates: Option<Seq<RateRecord>>,
    now: i64,
)
    ensures
        cache_rows(app_id, game_name, schema, log, rates, now).len() == schema.len(),
        rows_of_provider(
            cache_rows(app_id, game_name, schema, log, rates, now),
            app_id,
            ProviderTag::PlatformCache,
        ),
        schema_keys_distinct(schema) ==> keys_distinct(
            cache_rows(app_id, game_name, schema, log, rates, now),
        ),
{
    let rows = cache_rows(app_id, game_name, schema, log, rates, now);
    if schema_keys_distinct(schema) {
        assert forall|i: int, j: int| 0 <= i < j < rows.len() implies (
        #[trigger] rows[i]).achievement_id != (#[trigger] rows[j]).achievement_id by {}
    }
}

/// Whether the schema has an entry for the key of every member of a file.
pub open spec fn members_in_schema(schema: Seq<SchemaEntry>, members: Seq<(Seq<char>, JsonModel)>)
    -> bool {
    forall|k: int| 0 <= k < members.len() ==> !is_stray(schema, #[trigger] members[k])
}

/// The rows of the members that the schema lacks are rows of the game under
/// the JSON emulator, each named by its key, for which the schema has no
/// entry; there are none where the schema has an entry for every member.
pub proof fn lemma_goldberg_stray_rows(
    app_id: u32,
    game_name: Seq<char>,
    schema: Seq<SchemaEntry>,
    members: Seq<(Seq<char>, JsonModel)>,
    rates: Option<Seq<RateRecord>>,
    now: i64,
    n: nat,
)
    ensures
        rows_of_provider(
            goldberg_stray_rows(app_id, game_name, schema, members, rates, now, n),
            app_id,
            ProviderTag::EmulatorA,
        ),
        forall|k: int|
            0 <= k < goldberg_stray_rows(app_id, game_name, schema, members, rates, now, n).len() ==> {
                let row = #[trigger] goldberg_stray_rows(
                    app_id,
                    game_name,
                    schema,
                    members,
                    rates,
                    now,
                    n,
                )[k];
                row.display_name == row.achievement_id && schema_named(
                    schema,
                    row.achievement_id,
                    schema.len(),
                ) is None
            },
        members_in_schema(schema, members) ==> goldberg_stray_rows(
            app_id,
            game_name,
            schema,
            members,
            rates,
            now,
            n,
        ).len() == 0,
    decreases n,
{
    if n > 0 && n <= members.len() {
        lemma_goldberg_stray_rows(app_id, game_name, schema, members, rates, now, (n - 1) as nat);
    }
}

/// A scan of the JSON emulator gives a row of the game for each schema
/// entry, with the entry's key and name, locked where the file has no member
/// for the key. Every further row stands for a member whose key the schema
/// lacks, and keeps the key as its name. Where the schema has an entry for
/// the key of every member, there is no further row: the scan gives one row
/// for each schema entry.
pub proof fn lemma_goldberg_rows(
    app_id: u32,
    game_name: Seq<char>,
    schema: Seq<SchemaEntry>,
    members: Seq<(Seq<char>, JsonModel)>,
    rates: Option<Seq<RateRecord>>,
    now: i64,
)
    ensures
        rows_of_provider(
            goldberg_rows(app_id, game_name, schema, members, rates, now),
            app_id,
            ProviderTag::EmulatorA,
        ),
        goldberg_rows(app_id, game_name, schema, members, rates, now).len() >= schema.len(),
        forall|i: int|
            0 <= i < schema.len() ==> {
                let row = #[trigger] goldberg_rows(app_id, game_name, schema, members, rates, now)[i];
                row.achievement_id == schema[i].name && row.display_name == schema[i].display_name
                    && (member_from(members, schema[i].name, 0) is None ==> !row.achieved)
            },
        forall|i: int|
            schema.len() <= i < goldberg_rows(app_id, game_name, schema, members, rates, now).len() ==> {
                let row = #[trigger] goldberg_rows(app_id, game_name, schema, members, rates, now)[i];
                row.display_name == row.achievement_id && schema_named(
                    schema,
                    row.achievement_id,
                    schema.len(),
                ) is None
            },
        members_in_schema(schema, members) ==> goldberg_rows(
            app_id,
            game_name,
            schema,
            members,
            rates,
            now,
        ).len() == schema.len(),
        members_in_schema(schema, members) && schema_keys_distinct(schema) ==> keys_distinct(
            goldberg_rows(app_id, game_name, schema, members, rates, now),
        ),
{
    let rows = goldberg_rows(app_id, game_name, schema, members, rates, now);
    let stray = goldberg_stray_rows(app_id, game_name, schema, members, rates, now, members.len());
    lemma_goldberg_stray_rows(app_id, game_name, schema, members, rates, now, members.len());
    assert forall|i: int| schema.len() <= i < rows.len() implies {
        let row = #[trigger] rows[i];
        row.display_name == row.achievement_id && schema_named(
            schema,
            row.achievement_id,
            schema.len(),
        ) is None
    } by {
        assert(rows[i] == stray[i - schema.len()]);
    }
    assert forall|k: int| 0 <= k < rows.len() implies (#[trigger] rows[k]).app_id == app_id
        && rows[k].source == ProviderTag::EmulatorA by {
        if k >= schema.len() {
            assert(rows[k] == stray[k - schema.len()]);
        }
    }
    if members_in_schema(schema, members) && schema_keys_distinct(schema) {
        assert forall|i: int, j: int| 0 <= i < j < rows.len() implies (
        #[trigger] rows[i]).achievement_id != (#[trigger] rows[j]).achievement_id by {}
    }
}

/// After all rows of a game were removed and the rows of a scan of the JSON
/// emulator written, the game has one row for each schema entry, and each
/// comes from the JSON emulator. The schema must have distinct keys, and an
/// entry for the key of every member of the file.
pub proof fn lemma_goldberg_rescan(
    rows: Seq<AchievementRecord>,
    next_id: int,
    app_id: u32,
    game_name: Seq<char>,
    schema: Seq<SchemaEntry>,
    members: Seq<(Seq<char>, JsonModel)>,
    rates: Option<Seq<RateRecord>>,
    now: i64,
)
    requires
        schema_keys_distinct(schema),
        members_in_schema(schema, members),
        stored(
            without_game(rows, app_id, rows.len()),
            next_id,
            goldberg_rows(app_id, game_name, schema, members, rates, now),
            goldberg_rows(app_id, game_name, schema, members, rates, now).len(),
        ) is Some,
    ensures
        ({
            let list = goldberg_rows(app_id, game_name, schema, members, rates, now);
            let after = stored(
                without_game(rows, app_id, rows.len()),
                next_id,
                list,
                list.len(),
            ).unwrap().0;
            &&& rows_of_game(after, app_id).len() == schema.len()
            &&& forall|i: int|
                0 <= i < after.len() && (#[trigger] after[i]).app_id == app_id ==> after[i].source
                    == ProviderTag::EmulatorA
        }),
{
    let list = goldberg_rows(app_id, game_name, schema, members, rates, now);
    lemma_goldberg_rows(app_id, game_name, schema, members, rates, now);
    lemma_rescan_after_delete(rows, next_id, app_id, ProviderTag::EmulatorA, list);
}

/// A scan of the web API gives one row of the game for each schema entry,
/// with the entry's key.
pub proof fn lemma_remote_rows(
    app_id: u32,
    game_name: Seq<char>,
    schema: Seq<SchemaEntry>,
    progress: Option<Seq<ProgressRecord>>,
    rates: Option<Seq<RateRecord>>,
    now: i64,
)
    ensures
        remote_rows(app_id, game_name, schema, progress, rates, now).len() == schema.len(),
        rows_of_provider(
            remote_rows(app_id, game_name, schema, progress, rates, now),
            app_id,
            ProviderTag::RemoteApi,
        ),
        schema_keys_distinct(schema) ==> keys_distinct(
            remote_rows(app_id, game_name, schema, progress, rates, now),
        ),
{
}

// ---------------------------------------------------------------------------
// The executables of installed games
// ---------------------------------------------------------------------------
/// The executables of a game among the files found below its directory are
/// exactly the files that lie no deeper than is looked, end with `.exe` and
/// are no tools: each of these files gives an executable of its name, and
/// each executable has the name of such a file and belongs to the game.
pub proof fn lemma_executables_among(
    files: Seq<FoundRecord>,
    app_id: u32,
    game_name: Seq<char>,
    n: nat,
)
    requires
        n <= files.len(),
    ensures
        forall|j: int|
            0 <= j < executables_among(files, app_id, game_name, n).len() ==> {
                let e = #[trigger] executables_among(files, app_id, game_name, n)[j];
                e.app_id == app_id && e.game_name == game_name && exists|k: int|
                    0 <= k < n && is_known_file(#[trigger] files[k]) && files[k].name == e.exe_name
            },
        forall|k: int|
            0 <= k < n && is_known_file(#[trigger] files[k]) ==> exists|j: int|
                0 <= j < executables_among(files, app_id, game_name, n).len() && (
                #[trigger] executables_among(files, app_id, game_name, n)[j]).exe_name
                    == files[k].name,
    decreases n,
{
    if n > 0 {
        lemma_executables_among(files, app_id, game_name, (n - 1) as nat);
        let before = executables_among(files, app_id, game_name, (n - 1) as nat);
        let now = executables_among(files, app_id, game_name, n);
        assert forall|j: int| 0 <= j < now.len() implies {
            let e = #[trigger] now[j];
            e.app_id == app_id && e.game_name == game_name && exists|k: int|
                0 <= k < n && is_known_file(#[trigger] files[k]) && files[k].name == e.exe_name
        } by {
            if j < before.len() {
                assert(now[j] == before[j]);
                let k = choose|k: int|
                    0 <= k < n - 1 && is_known_file(#[trigger] files[k]) && files[k].name
                        == before[j].exe_name;
                assert(is_known_file(files[k]));
            } else {
                assert(is_known_file(files[n - 1]));
            }
        }
        assert forall|k: int| 0 <= k < n && is_known_file(#[trigger] files[k]) implies exists|
            j: int,
        |
            0 <= j < now.len() && (#[trigger] now[j]).exe_name == files[k].name by {
            if k < n - 1 {
                let j = choose|j: int|
                    0 <= j < before.len() && (#[trigger] before[j]).exe_name == files[k].name;
                assert(now[j] == before[j]);
            } else {
                assert(now[now.len() - 1].exe_name == files[k].name);
            }
        }
    }
}

// ---------------------------------------------------------------------------
// The debounce
// ---------------------------------------------------------------------------
/// What happens to the timer of a watched file: an event of the file, or a
/// look at the clock. Times are in milliseconds.
pub enum TimerStep {
    Event(FileEventKind, u64),
    Poll(u64),
}

/// The time of a step.
pub open spec fn step_time(s: TimerStep) -> u64 {
    match s {
        TimerStep::Event(_, t) => t,
        TimerStep::Poll(t) => t,
    }
}

/// Whether a step is an event that asks for a reparse.
pub open spec fn is_asking(s: TimerStep) -> bool {
    match s {
        TimerStep::Event(kind, _) => asks_reparse(kind),
        TimerStep::Poll(_) => false,
    }
}

/// The timer after the first `n` steps, and how many reparses ran.
pub open spec fn timer_run(steps: Seq<TimerStep>, n: nat) -> (Option<u64>, nat)
    decreases n,
{
    if n == 0 || n > steps.len() {
        (None, 0)
    } else {
        let (deadline, runs) = timer_run(steps, (n - 1) as nat);
        match steps[n - 1] {
            TimerStep::Event(kind, now) => (after_event(deadline, kind, now), runs),
            TimerStep::Poll(now) => {
                let (next, run) = after_poll(deadline, now);
                (
                    next,
                    if run {
                        runs + 1
                    } else {
                        runs
                    },
                )
            },
        }
    }
}

/// Whether the steps come in the order of their times.
pub open spec fn in_time_order(steps: Seq<TimerStep>) -> bool {
    forall|i: int, j: int|
        0 <= i < j < steps.len() ==> step_time(#[trigger] steps[i]) <= step_time(#[trigger] steps[j])
}

/// Whether every event that asks for a reparse falls into the quiet time
/// that begins at `start`.
pub open spec fn is_burst(steps: Seq<TimerStep>, start: u64) -> bool {
    start + 2 * DEBOUNCE_MS <= u64::MAX && forall|i: int|
        0 <= i < steps.len() && is_asking(#[trigger] steps[i]) ==> start <= step_time(steps[i])
            < start + DEBOUNCE_MS
}

/// What holds while a burst is taken in: no reparse has run and the timer
/// is set if and only if an event has asked for one; or one reparse has run,
/// at a time behind the burst, and the timer is clear.
pub open spec fn burst_state(steps: Seq<TimerStep>, start: u64, n: nat) -> bool {
    let (deadline, runs) = timer_run(steps, n);
    ||| runs == 0 && match deadline {
        Some(d) => d < start + 2 * DEBOUNCE_MS && d >= start + DEBOUNCE_MS && exists|i: int|
            0 <= i < n && is_asking(#[trigger] steps[i]),
        None => forall|i: int| 0 <= i < n ==> !is_asking(#[trigger] steps[i]),
    }
    ||| runs == 1 && deadline is None && exists|p: int|
        0 <= p < n && step_time(#[trigger] steps[p]) >= start + DEBOUNCE_MS
}

/// While a burst is taken in, the state of the timer is as described.
pub proof fn lemma_burst_state(steps: Seq<TimerStep>, start: u64, n: nat)
    requires
        n <= steps.len(),
        in_time_order(steps),
        is_burst(steps, start),
    ensures
        burst_state(steps, start, n),
    decreases n,
{
    if n > 0 {
        lemma_burst_state(steps, start, (n - 1) as nat);
        let (deadline, runs) = timer_run(steps, (n - 1) as nat);
        let step = steps[n - 1];
        if runs == 0 && deadline is Some && !is_asking(step) && step is Event {
            let i = choose|i: int| 0 <= i < n - 1 && is_asking(#[trigger] steps[i]);
        }
    }
}

/// A burst of events gives one reparse at most.
pub proof fn lemma_burst_runs_once(steps: Seq<TimerStep>, start: u64)
    requires
        in_time_order(steps),
        is_burst(steps, start),
    ensures
        timer_run(steps, steps.len()).1 <= 1,
{
    lemma_burst_state(steps, start, steps.len());
}

/// A burst of events, with a look at the clock two quiet times after its
/// start or later, gives exactly one reparse.
pub proof fn lemma_burst_runs_exactly_once(steps: Seq<TimerStep>, start: u64, e: int, p: int)
    requires
        in_time_order(steps),
        is_burst(steps, start),
        0 <= e < steps.len(),
        is_asking(steps[e]),
        0 <= p < steps.len(),
        steps[p] is Poll,
        step_time(steps[p]) >= start + 2 * DEBOUNCE_MS,
    ensures
        timer_run(steps, steps.len()).1 == 1,
{
    lemma_burst_state(steps, start, p as nat);
    lemma_burst_state(steps, start, (p + 1) as nat);
    let (deadline, runs) = timer_run(steps, p as nat);
    lemma_runs_grow(steps, (p + 1) as nat, steps.len());
    lemma_burst_state(steps, start, steps.len());
}

/// The number of reparses does not fall.
pub proof fn lemma_runs_grow(steps: Seq<TimerStep>, n: nat, m: nat)
    requires
        n <= m <= steps.len(),
    ensures
        timer_run(steps, n).1 <= timer_run(steps, m).1,
    decreases m,
{
    if n < m {
        lemma_runs_grow(steps, n, (m - 1) as nat);
    }
}

// ---------------------------------------------------------------------------
// Sorted texts
// ---------------------------------------------------------------------------
/// Whether texts are in the order of the dictionary.
pub open spec fn texts_ordered(list: Seq<Seq<char>>) -> bool {
    forall|p: int, q: int|
        0 <= p < q < list.len() ==> !text_precedes(#[trigger] list[q], #[trigger] list[p])
}

/// Where a text is put: behind every text that does not come after it, and
/// before a text that comes after it.
pub proof fn lemma_text_place_order(list: Seq<Seq<char>>, t: Seq<char>, from: int)
    requires
        0 <= from <= list.len(),
    ensures
        from <= text_place(list, t, from) <= list.len(),
        forall|p: int| from <= p < text_place(list, t, from) ==> !text_precedes(t, #[trigger] list[p]),
        text_place(list, t, from) < list.len() ==> text_precedes(
            t,
            list[text_place(list, t, from)],
        ),
    decreases list.len() - from,
{
    if from < list.len() && !text_precedes(t, list[from]) {
        lemma_text_place_order(list, t, from + 1);
    }
}

/// Sorted texts are in the order of the dictionary.
pub proof fn lemma_sorted_texts(list: Seq<Seq<char>>, n: nat)
    requires
        n <= list.len(),
    ensures
        texts_ordered(sorted_texts(list, n)),
        sorted_texts(list, n).len() == n,
    decreases n,
{
    if n > 0 {
        lemma_sorted_texts(list, (n - 1) as nat);
        let before = sorted_texts(list, (n - 1) as nat);
        let t = list[n - 1];
        let at = text_place(before, t, 0);
        lemma_text_place_order(before, t, 0);
        let after = before.insert(at, t);
        assert forall|p: int, q: int| 0 <= p < q < after.len() implies !text_precedes(
            #[trigger] after[q],
            #[trigger] after[p],
        ) by {
            if q > at && p == at {
                let other = before[q - 1];
                if text_precedes(other, t) {
                    lemma_precedes_transitive(other, t, before[at], 0);
                    if q - 1 == at {
                        lemma_precedes_irreflexive(other, 0);
                    }
                }
            }
        }
    }
}

// ---------------------------------------------------------------------------
// Summaries
// ---------------------------------------------------------------------------
/// How many of the first `n` rows belong to a game under a provider.
pub open spec fn provider_count(
    rows: Seq<AchievementRecord>,
    app_id: u32,
    source: ProviderTag,
    n: nat,
) -> nat
    decreases n,
{
    if n == 0 || n > rows.len() {
        0
    } else if rows[n - 1].app_id == app_id && rows[n - 1].source == source {
        provider_count(rows, app_id, source, (n - 1) as nat) + 1
    } else {
        provider_count(rows, app_id, source, (n - 1) as nat)
    }
}

/// How many of the first `n` rows belong to a game under a provider and are
/// unlocked.
pub open spec fn provider_unlocked(
    rows: Seq<AchievementRecord>,
    app_id: u32,
    source: ProviderTag,
    n: nat,
) -> nat
    decreases n,
{
    if n == 0 || n > rows.len() {
        0
    } else if rows[n - 1].app_id == app_id && rows[n - 1].source == source
        && rows[n - 1].achieved {
        provider_unlocked(rows, app_id, source, (n - 1) as nat) + 1
    } else {
        provider_unlocked(rows, app_id, source, (n - 1) as nat)
    }
}

/// The latest time at which one of the first `n` rows of a game under a
/// provider was written.
pub open spec fn provider_latest(
    rows: Seq<AchievementRecord>,
    app_id: u32,
    source: ProviderTag,
    n: nat,
) -> i64
    decreases n,
{
    if n == 0 || n > rows.len() {
        i64::MIN
    } else if rows[n - 1].app_id == app_id && rows[n - 1].source == source
        && rows[n - 1].last_updated > provider_latest(rows, app_id, source, (n - 1) as nat) {
        rows[n - 1].last_updated
    } else {
        provider_latest(rows, app_id, source, (n - 1) as nat)
    }
}

/// Whether a summary holds what a table holds of its game under its
/// provider: the number of rows, the number of unlocked rows, and the time
/// of the latest write.
pub open spec fn summary_counts(s: SummaryRecord, rows: Seq<AchievementRecord>, n: nat) -> bool {
    &&& s.total_achievements == provider_count(rows, s.app_id, s.source, n)
    &&& s.unlocked_achievements == provider_unlocked(rows, s.app_id, s.source, n)
    &&& s.last_updated == provider_latest(rows, s.app_id, s.source, n)
    &&& s.total_achievements > 0
}

/// `summary_place` finds the summary of the game and provider, if there is
/// one.
pub proof fn lemma_summary_place_found(
    sums: Seq<SummaryRecord>,
    app_id: u32,
    source: ProviderTag,
    from: int,
)
    requires
        0 <= from,
    ensures
        match summary_place(sums, app_id, source, from) {
            Some(i) => from <= i < sums.len() && sums[i].app_id == app_id && sums[i].source
                == source && forall|j: int|
                from <= j < i ==> !((#[trigger] sums[j]).app_id == app_id && sums[j].source
                    == source),
            None => forall|j: int|
                from <= j < sums.len() ==> !((#[trigger] sums[j]).app_id == app_id
                    && sums[j].source == source),
        },
    decreases sums.len() - from,
{
    if from < sums.len() && !(sums[from].app_id == app_id && sums[from].source == source) {
        lemma_summary_place_found(sums, app_id, source, from + 1);
    }
}

/// Whether two lists of summaries are for the same games and providers,
/// place by place.
pub open spec fn same_groups(a: Seq<SummaryRecord>, b: Seq<SummaryRecord>) -> bool {
    a.len() == b.len() && forall|j: int|
        0 <= j < a.len() ==> (#[trigger] a[j]).app_id == b[j].app_id && a[j].source == b[j].source
}

/// The place of a summary depends on the games and providers alone.
pub proof fn lemma_summary_place_same(
    a: Seq<SummaryRecord>,
    b: Seq<SummaryRecord>,
    app_id: u32,
    source: ProviderTag,
    from: int,
)
    requires
        same_groups(a, b),
        0 <= from,
    ensures
        summary_place(a, app_id, source, from) == summary_place(b, app_id, source, from),
    decreases a.len() - from,
{
    if from < a.len() {
        lemma_summary_place_same(a, b, app_id, source, from + 1);
    }
}

/// The place of a summary in a list with one more summary at its end.
pub proof fn lemma_summary_place_pushed(
    sums: Seq<SummaryRecord>,
    added: SummaryRecord,
    app_id: u32,
    source: ProviderTag,
    from: int,
)
    requires
        0 <= from <= sums.len(),
    ensures
        summary_place(sums.push(added), app_id, source, from) == match summary_place(
            sums,
            app_id,
            source,
            from,
        ) {
            Some(i) => Some(i),
            None => if added.app_id == app_id && added.source == source {
                Some(sums.len() as int)
            } else {
                None
            },
        },
    decreases sums.len() - from,
{
    let after = sums.push(added);
    if from < sums.len() {
        lemma_summary_place_pushed(sums, added, app_id, source, from + 1);
    } else {
        assert(summary_place(after, app_id, source, from + 1) is None);
    }
}

/// The summaries count the rows: a game under a provider has one summary if
/// it has rows and none if it has none, and the summary holds the number of
/// its rows and the number of its unlocked rows.
pub proof fn lemma_summaries_count(
    rows: Seq<AchievementRecord>,
    n: nat,
    app_id: u32,
    source: ProviderTag,
)
    requires
        n <= rows.len(),
    ensures
        match summary_place(summaries(rows, n), app_id, source, 0) {
            Some(i) => 0 <= i < summaries(rows, n).len() && summaries(rows, n)[i].app_id == app_id
                && summaries(rows, n)[i].source == source && summary_counts(
                summaries(rows, n)[i],
                rows,
                n,
            ),
            None => provider_count(rows, app_id, source, n) == 0 && provider_unlocked(
                rows,
                app_id,
                source,
                n,
            ) == 0 && provider_latest(rows, app_id, source, n) == i64::MIN,
        },
    decreases n,
{
    if n > 0 {
        lemma_summaries_count(rows, (n - 1) as nat, app_id, source);
        let before = summaries(rows, (n - 1) as nat);
        let after = summaries(rows, n);
        let row = rows[n - 1];
        lemma_summary_place_found(before, row.app_id, row.source, 0);
        lemma_summary_place_found(before, app_id, source, 0);
        assert(provider_unlocked(rows, app_id, source, n) == provider_unlocked(
            rows,
            app_id,
            source,
            (n - 1) as nat,
        ) + if row.app_id == app_id && row.source == source && row.achieved {
            1nat
        } else {
            0nat
        });
        assert(provider_count(rows, app_id, source, n) == provider_count(
            rows,
            app_id,
            source,
            (n - 1) as nat,
        ) + if row.app_id == app_id && row.source == source {
            1nat
        } else {
            0nat
        });
        assert(provider_latest(rows, app_id, source, n) == if row.app_id == app_id && row.source
            == source && row.last_updated > provider_latest(
            rows,
            app_id,
            source,
            (n - 1) as nat,
        ) {
            row.last_updated
        } else {
            provider_latest(rows, app_id, source, (n - 1) as nat)
        });
        match summary_place(before, row.app_id, row.source, 0) {
            Some(k) => {
                lemma_summary_place_same(after, before, app_id, source, 0);
                match summary_place(before, app_id, source, 0) {
                    Some(i) => {
                        if i != k {
                            assert(provider_count(rows, app_id, source, n) == provider_count(
                                rows,
                                app_id,
                                source,
                                (n - 1) as nat,
                            ));
                        } else {
                            assert(provider_count(rows, app_id, source, n) == provider_count(
                                rows,
                                app_id,
                                source,
                                (n - 1) as nat,
                            ) + 1);
                        }
                    },
                    None => {
                    },
                }
            },
            None => {
                lemma_summary_place_pushed(before, summary_of_row(row), app_id, source, 0);
            },
        }
    }
}

/// Ordering summaries by name keeps every summary, and brings in none.
pub proof fn lemma_ordered_by_name(sums: Seq<SummaryRecord>, n: nat)
    requires
        n <= sums.len(),
    ensures
        ordered_by_name(sums, n).len() == n,
        forall|k: int|
            0 <= k < n ==> sums.take(n as int).contains(#[trigger] ordered_by_name(sums, n)[k]),
        forall|j: int| 0 <= j < n ==> ordered_by_name(sums, n).contains(#[trigger] sums[j]),
    decreases n,
{
    if n > 0 {
        lemma_ordered_by_name(sums, (n - 1) as nat);
        let before = ordered_by_name(sums, (n - 1) as nat);
        let after = ordered_by_name(sums, n);
        let at = name_place(before, sums[n - 1].game_name, 0);
        lemma_name_place(before, sums[n - 1].game_name, 0);
        assert forall|k: int| 0 <= k < n implies sums.take(n as int).contains(
            #[trigger] after[k],
        ) by {
            let prev = sums.take(n - 1);
            if k < at {
                let j = choose|j: int| 0 <= j < prev.len() && (#[trigger] prev[j]) == before[k];
            } else if k == at {
                assert(sums.take(n as int)[n - 1] == after[k]);
            } else {
                let j = choose|j: int| 0 <= j < prev.len() && (#[trigger] prev[j]) == before[k - 1];
            }
        }
        assert forall|j: int| 0 <= j < n implies after.contains(#[trigger] sums[j]) by {
            if j < n - 1 {
                let k = choose|k: int| 0 <= k < before.len() && (#[trigger] before[k]) == sums[j];
                if k < at {
                    assert(after[k] == sums[j]);
                } else {
                    assert(after[k + 1] == sums[j]);
                }
            } else {
                assert(after[at] == sums[j]);
            }
        }
    }
}

/// What the list of all games holds: every summary of it counts the rows of
/// its game under its provider, and every game under a provider that has
/// rows has a summary in it.
pub proof fn lemma_all_games(rows: Seq<AchievementRecord>)
    ensures
        forall|k: int|
            0 <= k < all_games(rows).len() ==> summary_counts(
                #[trigger] all_games(rows)[k],
                rows,
                rows.len(),
            ),
        forall|j: int|
            0 <= j < rows.len() ==> exists|k: int|
                0 <= k < all_games(rows).len() && (#[trigger] all_games(rows)[k]).app_id == (
                #[trigger] rows[j]).app_id && all_games(rows)[k].source == rows[j].source,
{
    let sums = summaries(rows, rows.len());
    let listed = all_games(rows);
    lemma_ordered_by_name(sums, sums.len());
    assert forall|k: int| 0 <= k < listed.len() implies summary_counts(
        #[trigger] listed[k],
        rows,
        rows.len(),
    ) by {
        let m = choose|m: int| 0 <= m < sums.len() && (#[trigger] sums[m]) == listed[k];
        lemma_summaries_count(rows, rows.len(), sums[m].app_id, sums[m].source);
        lemma_summaries_distinct(rows, rows.len());
        lemma_summary_place_found(sums, sums[m].app_id, sums[m].source, 0);
    }
    assert forall|j: int| 0 <= j < rows.len() implies exists|k: int|
        0 <= k < listed.len() && (#[trigger] listed[k]).app_id == (#[trigger] rows[j]).app_id
            && listed[k].source == rows[j].source by {
        lemma_summaries_count(rows, rows.len(), rows[j].app_id, rows[j].source);
        lemma_provider_count_positive(rows, rows[j].app_id, rows[j].source, rows.len(), j);
    }
}

/// A game under a provider with a row among the first `n` rows counts one
/// row at least.
pub proof fn lemma_provider_count_positive(
    rows: Seq<AchievementRecord>,
    app_id: u32,
    source: ProviderTag,
    n: nat,
    j: int,
)
    requires
        n <= rows.len(),
        0 <= j < n,
        rows[j].app_id == app_id,
        rows[j].source == source,
    ensures
        provider_count(rows, app_id, source, n) > 0,
    decreases n,
{
    if j < n - 1 {
        lemma_provider_count_positive(rows, app_id, source, (n - 1) as nat, j);
    }
}

/// No game and provider has two summaries.
pub open spec fn summaries_distinct(sums: Seq<SummaryRecord>) -> bool {
    forall|i: int, j: int|
        0 <= i < j < sums.len() ==> !((#[trigger] sums[i]).app_id == (#[trigger] sums[j]).app_id
            && sums[i].source == sums[j].source)
}

/// The summaries of a table are of different games or providers.
pub proof fn lemma_summaries_distinct(rows: Seq<AchievementRecord>, n: nat)
    requires
        n <= rows.len(),
    ensures
        summaries_distinct(summaries(rows, n)),
    decreases n,
{
    if n > 0 {
        lemma_summaries_distinct(rows, (n - 1) as nat);
        let before = summaries(rows, (n - 1) as nat);
        let after = summaries(rows, n);
        let row = rows[n - 1];
        lemma_summary_place_found(before, row.app_id, row.source, 0);
        match summary_place(before, row.app_id, row.source, 0) {
            Some(k) => {
                assert forall|i: int, j: int| 0 <= i < j < after.len() implies !((
                #[trigger] after[i]).app_id == (#[trigger] after[j]).app_id && after[i].source
                    == after[j].source) by {
                    assert(after[i].app_id == before[i].app_id && after[i].source
                        == before[i].source);
                    assert(after[j].app_id == before[j].app_id && after[j].source
                        == before[j].source);
                }
            },
            None => {
            },
        }
    }
}

/// Whether summaries are in the order of the names of their games.
pub open spec fn ordered_by_game_name(sums: Seq<SummaryRecord>) -> bool {
    forall|p: int, q: int|
        0 <= p < q < sums.len() ==> !text_precedes(
            (#[trigger] sums[q]).game_name,
            (#[trigger] sums[p]).game_name,
        )
}

/// Where a summary is put: behind every summary whose name does not come
/// after its name, and before a summary whose name comes after its name.
pub proof fn lemma_name_place_order(sums: Seq<SummaryRecord>, name: Seq<char>, from: int)
    requires
        0 <= from <= sums.len(),
    ensures
        forall|p: int|
            from <= p < name_place(sums, name, from) ==> !text_precedes(
                name,
                (#[trigger] sums[p]).game_name,
            ),
        name_place(sums, name, from) < sums.len() ==> text_precedes(
            name,
            sums[name_place(sums, name, from)].game_name,
        ),
    decreases sums.len() - from,
{
    if from < sums.len() && !text_precedes(name, sums[from].game_name) {
        lemma_name_place_order(sums, name, from + 1);
    }
}

/// The list of all games is in the order of the names of the games.
pub proof fn lemma_games_ordered(sums: Seq<SummaryRecord>, n: nat)
    requires
        n <= sums.len(),
    ensures
        ordered_by_game_name(ordered_by_name(sums, n)),
    decreases n,
{
    if n > 0 {
        lemma_games_ordered(sums, (n - 1) as nat);
        let before = ordered_by_name(sums, (n - 1) as nat);
        let name = sums[n - 1].game_name;
        let at = name_place(before, name, 0);
        lemma_name_place(before, name, 0);
        lemma_name_place_order(before, name, 0);
        let after = before.insert(at, sums[n - 1]);
        assert forall|p: int, q: int| 0 <= p < q < after.len() implies !text_precedes(
            (#[trigger] after[q]).game_name,
            (#[trigger] after[p]).game_name,
        ) by {
            if q > at && p == at {
                let other = before[q - 1].game_name;
                if text_precedes(other, name) {
                    lemma_precedes_transitive(other, name, before[at].game_name, 0);
                    if q - 1 == at {
                        lemma_precedes_irreflexive(other, 0);
                    }
                }
            }
        }
    }
}

// ---------------------------------------------------------------------------
// The time of the last write
// ---------------------------------------------------------------------------
/// Whether no row of a table was written earlier in another table, place by
/// place.
pub open spec fn times_kept(a: Seq<AchievementRecord>, b: Seq<AchievementRecord>) -> bool {
    a.len() <= b.len() && forall|i: int|
        0 <= i < a.len() ==> (#[trigger] b[i]).last_updated >= a[i].last_updated
}

/// Writing a row does not take the time of any row's last write back,
/// whatever time the row written carries.
pub proof fn lemma_upsert_keeps_time(rows: Seq<AchievementRecord>, next_id: int, a: AchievementRecord)
    ensures
        times_kept(rows, upserted(rows, next_id, a)),
{
    lemma_position_from(rows, a.app_id, a.achievement_id, a.source, 0);
    let written = upserted(rows, next_id, a);
    assert forall|i: int| 0 <= i < rows.len() implies (#[trigger] written[i]).last_updated
        >= rows[i].last_updated by {}
}

/// Setting the unlock state of a row does not take the time of any row's
/// last write back, whatever the time of the write.
pub proof fn lemma_status_keeps_time(
    rows: Seq<AchievementRecord>,
    id: i64,
    achieved: bool,
    unlock_time: Option<i64>,
    now: i64,
)
    ensures
        times_kept(rows, with_status(rows, id, achieved, unlock_time, now)),
{
    crate::achievements::lemma_row_with_id(rows, id, 0);
    let set = with_status(rows, id, achieved, unlock_time, now);
    assert forall|i: int| 0 <= i < rows.len() implies (#[trigger] set[i]).last_updated
        >= rows[i].last_updated by {}
}

/// Restoring a backup does not take the time of any row's last write back,
/// whatever the time of the restore.
pub proof fn lemma_restore_keeps_time(
    rows: Seq<AchievementRecord>,
    app_id: u32,
    backup: Seq<BackupRecord>,
    now: i64,
)
    ensures
        times_kept(rows, restored(rows, app_id, backup, now)),
{
    let back = restored(rows, app_id, backup, now);
    assert forall|i: int| 0 <= i < rows.len() implies (#[trigger] back[i]).last_updated
        >= rows[i].last_updated by {}
}

} // verus!

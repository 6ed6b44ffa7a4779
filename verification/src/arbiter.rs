//! The source arbiter: which provider speaks for a game.
//!
//! Every provider that has data for the game is scanned and written to the
//! store as a trial. The provider with the most unlocked rows wins, a tie
//! going to the provider that comes first in the fixed order. Then the
//! scanned rows of the game are removed and the winner's rows written.

use crate::achievement_scanner::{rows_wf, store_rows, stored, unlocked_count};
use crate::achievements::{
    Achievement, AchievementDatabase, AchievementRecord, all_games, GameAchievementSummary,
    ProviderTag, records, summary_records, SummaryRecord, without_scanned,
};
use crate::error::EngineError;
use vstd::prelude::*;

verus! {

/// What the scan of one provider gave for a game, as a mathematical value.
pub struct ScanRecord {
    pub source: ProviderTag,
    pub rows: Seq<AchievementRecord>,
}

/// What the scan of one provider gave for a game.
pub struct ProviderScan {
    pub source: ProviderTag,
    pub rows: Vec<Achievement>,
}

impl View for ProviderScan {
    type V = ScanRecord;

    open spec fn view(&self) -> ScanRecord {
        ScanRecord { source: self.source, rows: records(self.rows@) }
    }
}

/// The scans of a list, each by its view.
pub open spec fn scan_records(scans: Seq<ProviderScan>) -> Seq<ScanRecord> {
    Seq::new(scans.len(), |i: int| scans[i]@)
}

/// Whether the rows of every scan have an unlock time only if unlocked.
pub open spec fn scans_wf(scans: Seq<ScanRecord>) -> bool {
    forall|i: int| 0 <= i < scans.len() ==> rows_wf((#[trigger] scans[i]).rows)
}

/// The place of a provider in the fixed order: the platform's cache first,
/// then the JSON emulator, the INI emulator, the web API.
pub open spec fn rank(source: ProviderTag) -> int {
    match source {
        ProviderTag::PlatformCache => 0,
        ProviderTag::EmulatorA => 1,
        ProviderTag::EmulatorB => 2,
        ProviderTag::RemoteApi => 3,
        ProviderTag::Manual => 4,
    }
}

/// How many unlocked rows a provider has for a game, and how many rows.
pub struct SourceCount {
    pub source: ProviderTag,
    pub unlocked_count: usize,
    pub total_count: usize,
}

/// Whether one provider beats another: by more unlocked rows, and by its
/// place in the fixed order where both have as many.
pub open spec fn beats(a: SourceCount, b: SourceCount) -> bool {
    a.unlocked_count > b.unlocked_count || (a.unlocked_count == b.unlocked_count && rank(a.source)
        < rank(b.source))
}

/// The winner among the first `n` providers: none without providers.
pub open spec fn winner(counts: Seq<SourceCount>, n: nat) -> Option<SourceCount>
    decreases n,
{
    if n == 0 || n > counts.len() {
        None
    } else {
        match winner(counts, (n - 1) as nat) {
            Some(best) => if beats(counts[n - 1], best) {
                Some(counts[n - 1])
            } else {
                Some(best)
            },
            None => Some(counts[n - 1]),
        }
    }
}

/// The place of one provider in the fixed order.
pub fn rank_of(source: ProviderTag) -> (r: u8)
    ensures
        r == rank(source),
{
    match source {
        ProviderTag::PlatformCache => 0,
        ProviderTag::EmulatorA => 1,
        ProviderTag::EmulatorB => 2,
        ProviderTag::RemoteApi => 3,
        ProviderTag::Manual => 4,
    }
}

/// The provider that wins: the one with the most unlocked rows, the first in
/// the fixed order among those with as many.
pub fn choose_provider(counts: &Vec<SourceCount>) -> (r: Option<ProviderTag>)
    ensures
        match r {
            Some(source) => winner(counts@, counts@.len()) matches Some(best) && best.source
                == source,
            None => winner(counts@, counts@.len()) is None,
        },
{
    let mut best: Option<usize> = None;
    let mut i: usize = 0;
    while i < counts.len()
        invariant
            i <= counts@.len(),
            match best {
                Some(b) => b < i && winner(counts@, i as nat) == Some(counts@[b as int]),
                None => winner(counts@, i as nat) is None,
            },
        decreases counts@.len() - i,
    {
        best = match best {
            Some(b) => {
                let a = &counts[i];
                let c = &counts[b];
                if a.unlocked_count > c.unlocked_count || (a.unlocked_count == c.unlocked_count
                    && rank_of(a.source) < rank_of(c.source)) {
                    Some(i)
                } else {
                    Some(b)
                }
            },
            None => Some(i),
        };
        i = i + 1;
    }
    match best {
        Some(b) => Some(counts[b].source),
        None => None,
    }
}

/// The winner has no fewer unlocked rows than any provider, and among those
/// with as many it comes first in the fixed order.
pub proof fn lemma_winner(counts: Seq<SourceCount>, n: nat, k: int)
    requires
        n <= counts.len(),
        0 <= k < n,
    ensures
        winner(counts, n) matches Some(best) && !beats(counts[k], best) && exists|j: int|
            0 <= j < n && counts[j] == best,
    decreases n,
{
    if n > 1 {
        if k < n - 1 {
            lemma_winner(counts, (n - 1) as nat, k);
        } else {
            lemma_winner(counts, (n - 1) as nat, 0);
        }
        let best = winner(counts, (n - 1) as nat).unwrap();
    } else {
    }
}

/// Where no provider has an unlocked row, the platform's cache wins if it
/// is among the providers.
pub proof fn lemma_tie_at_zero(counts: Seq<SourceCount>, k: int)
    requires
        0 <= k < counts.len(),
        counts[k].source == ProviderTag::PlatformCache,
        forall|i: int| 0 <= i < counts.len() ==> (#[trigger] counts[i]).unlocked_count == 0,
    ensures
        winner(counts, counts.len()) matches Some(best) && best.source == ProviderTag::PlatformCache,
{
    lemma_winner(counts, counts.len(), k);
}

/// The summary of a game under a provider among `sums[from..]`.
pub open spec fn summary_for(sums: Seq<SummaryRecord>, app_id: u32, source: ProviderTag, from: int)
    -> Option<SummaryRecord>
    decreases sums.len() - from,
{
    if from < 0 || from >= sums.len() {
        None
    } else if sums[from].app_id == app_id && sums[from].source == source {
        Some(sums[from])
    } else {
        summary_for(sums, app_id, source, from + 1)
    }
}

/// What a table holds of a game under a provider: the numbers of its
/// summary; zero without one.
pub open spec fn count_in(rows: Seq<AchievementRecord>, app_id: u32, source: ProviderTag)
    -> SourceCount {
    match summary_for(all_games(rows), app_id, source, 0) {
        Some(s) => SourceCount {
            source,
            unlocked_count: s.unlocked_achievements as usize,
            total_count: s.total_achievements as usize,
        },
        None => SourceCount { source, unlocked_count: 0, total_count: 0 },
    }
}

/// What a table holds of a game under the provider of each scan.
pub open spec fn counts_in(rows: Seq<AchievementRecord>, app_id: u32, scans: Seq<ScanRecord>) -> Seq<
    SourceCount,
> {
    Seq::new(scans.len(), |i: int| count_in(rows, app_id, scans[i].source))
}

/// The table and the next id after the rows of the first `n` scans were
/// written as a trial; `None` where the ids ran out.
pub open spec fn trial(rows: Seq<AchievementRecord>, next_id: int, scans: Seq<ScanRecord>, n: nat)
    -> Option<(Seq<AchievementRecord>, int)>
    decreases n,
{
    if n == 0 || n > scans.len() {
        Some((rows, next_id))
    } else {
        match trial(rows, next_id, scans, (n - 1) as nat) {
            Some((table, id)) => stored(table, id, scans[n - 1].rows, scans[n - 1].rows.len()),
            None => None,
        }
    }
}

/// Whether the rows of every scan are rows of the game under the scan's
/// provider.
pub open spec fn scans_of_game(scans: Seq<ScanRecord>, app_id: u32) -> bool {
    forall|i: int|
        0 <= i < scans.len() ==> crate::laws::rows_of_provider(
            (#[trigger] scans[i]).rows,
            app_id,
            scans[i].source,
        )
}

/// The place of the first scan of a provider among `scans[from..]`.
pub open spec fn scan_of(scans: Seq<ScanRecord>, source: ProviderTag, from: int) -> Option<int>
    decreases scans.len() - from,
{
    if from < 0 || from >= scans.len() {
        None
    } else if scans[from].source == source {
        Some(from)
    } else {
        scan_of(scans, source, from + 1)
    }
}

/// The table and the next id after a game was bound to the provider of a
/// scan: the scanned rows of the game removed, the rows of the scan written;
/// `None` where the ids ran out.
pub open spec fn bound(rows: Seq<AchievementRecord>, next_id: int, app_id: u32, scan: ScanRecord)
    -> Option<(Seq<AchievementRecord>, int)> {
    stored(without_scanned(rows, app_id, rows.len()), next_id, scan.rows, scan.rows.len())
}

/// What an arbitration leaves and returns: `Storage` where the ids ran out;
/// without scans, the table as it was and no winner; else the table after
/// the trial, bound to the winner, and the winner.
pub open spec fn arbitrated(
    rows: Seq<AchievementRecord>,
    next_id: int,
    app_id: u32,
    scans: Seq<ScanRecord>,
) -> Result<(Seq<AchievementRecord>, int, Option<ProviderTag>), EngineError> {
    match trial(rows, next_id, scans, scans.len()) {
        Some((table, id)) => match winner(counts_in(table, app_id, scans), scans.len()) {
            Some(best) => match scan_of(scans, best.source, 0) {
                Some(k) => match bound(table, id, app_id, scans[k]) {
                    Some((after, last)) => Ok((after, last, Some(best.source))),
                    None => Err(EngineError::Storage),
                },
                None => Ok((table, id, None)),
            },
            None => Ok((table, id, None)),
        },
        None => Err(EngineError::Storage),
    }
}

/// The numbers of a table for a game under a provider.
pub fn count_for(sums: &Vec<GameAchievementSummary>, app_id: u32, source: ProviderTag) -> (r:
    SourceCount)
    ensures
        r == match summary_for(summary_records(sums@), app_id, source, 0) {
            Some(s) => SourceCount {
                source,
                unlocked_count: s.unlocked_achievements as usize,
                total_count: s.total_achievements as usize,
            },
            None => SourceCount { source, unlocked_count: 0, total_count: 0 },
        },
{
    let mut i: usize = 0;
    while i < sums.len()
        invariant
            i <= sums@.len(),
            summary_for(summary_records(sums@), app_id, source, 0) == summary_for(
                summary_records(sums@),
                app_id,
                source,
                i as int,
            ),
        decreases sums@.len() - i,
    {
        if sums[i].app_id == app_id && sums[i].source == source {
            return SourceCount {
                source,
                unlocked_count: sums[i].unlocked_achievements,
                total_count: sums[i].total_achievements,
            };
        }
        i = i + 1;
    }
    SourceCount { source, unlocked_count: 0, total_count: 0 }
}

/// Writes the rows of every scan to the store as a trial and reads back what
/// the store then holds of the game under each scan's provider.
pub fn check_game_sources(db: &mut AchievementDatabase, app_id: u32, scans: &Vec<ProviderScan>) -> (r:
    Result<Vec<SourceCount>, EngineError>)
    requires
        old(db).wf(),
        scans_wf(scan_records(scans@)),
    ensures
        final(db).wf(),
        final(db).exclusions() == old(db).exclusions(),
        match r {
            Ok(counts) => trial(
                old(db)@,
                old(db).next_row_id(),
                scan_records(scans@),
                scans@.len(),
            ) == Some((final(db)@, final(db).next_row_id())) && counts@ == counts_in(
                final(db)@,
                app_id,
                scan_records(scans@),
            ),
            Err(e) => e == EngineError::Storage && trial(
                old(db)@,
                old(db).next_row_id(),
                scan_records(scans@),
                scans@.len(),
            ) is None,
        },
{
    let mut i: usize = 0;
    while i < scans.len()
        invariant
            i <= scans@.len(),
            db.wf(),
            scans_wf(scan_records(scans@)),
            db.exclusions() == old(db).exclusions(),
            trial(old(db)@, old(db).next_row_id(), scan_records(scans@), i as nat) == Some(
                (db@, db.next_row_id()),
            ),
        decreases scans@.len() - i,
    {
        assert(scan_records(scans@)[i as int] == scans@[i as int]@);
        match store_rows(db, &scans[i].rows) {
            Ok(_) => {},
            Err(e) => {
                proof {
                    lemma_trial_fails(
                        old(db)@,
                        old(db).next_row_id(),
                        scan_records(scans@),
                        (i + 1) as nat,
                        scans@.len() as nat,
                    );
                }
                return Err(e);
            },
        }
        i = i + 1;
    }
    let sums = db.get_all_games();
    let mut counts: Vec<SourceCount> = Vec::new();
    let mut k: usize = 0;
    while k < scans.len()
        invariant
            k <= scans@.len(),
            summary_records(sums@) == all_games(db@),
            counts@.len() == k,
            forall|j: int|
                0 <= j < k ==> #[trigger] counts@[j] == count_in(
                    db@,
                    app_id,
                    scan_records(scans@)[j].source,
                ),
        decreases scans@.len() - k,
    {
        counts.push(count_for(&sums, app_id, scans[k].source));
        k = k + 1;
    }
    Ok(counts)
}

/// Once the ids have run out, more scans do not help.
pub proof fn lemma_trial_fails(
    rows: Seq<AchievementRecord>,
    next_id: int,
    scans: Seq<ScanRecord>,
    n: nat,
    m: nat,
)
    requires
        n <= m <= scans.len(),
        trial(rows, next_id, scans, n) is None,
    ensures
        trial(rows, next_id, scans, m) is None,
    decreases m,
{
    if n < m {
        lemma_trial_fails(rows, next_id, scans, n, (m - 1) as nat);
    }
}

/// Binds a game to the provider of a scan: removes the scanned rows of the
/// game and writes the rows of the scan. Rows that the user wrote stay.
/// Returns how many of the rows are unlocked.
pub fn add_game_from_source(db: &mut AchievementDatabase, app_id: u32, scan: &ProviderScan) -> (r:
    Result<usize, EngineError>)
    requires
        old(db).wf(),
        rows_wf(scan@.rows),
    ensures
        final(db).wf(),
        final(db).exclusions() == old(db).exclusions(),
        r is Ok && crate::laws::rows_of_provider(scan@.rows, app_id, scan.source)
            ==> crate::laws::single_provider(final(db)@, app_id),
        match r {
            Ok(count) => bound(old(db)@, old(db).next_row_id(), app_id, scan@) == Some(
                (final(db)@, final(db).next_row_id()),
            ) && count == unlocked_count(scan@.rows, scan@.rows.len()),
            Err(e) => e == EngineError::Storage && bound(
                old(db)@,
                old(db).next_row_id(),
                app_id,
                scan@,
            ) is None,
        },
{
    proof {
        if bound(db@, db.next_row_id(), app_id, scan@) is Some && crate::laws::rows_of_provider(
            scan@.rows,
            app_id,
            scan.source,
        ) {
            crate::laws::lemma_bound_single_provider(db@, db.next_row_id(), app_id, scan@);
        }
    }
    db.delete_scanned_achievements(app_id);
    store_rows(db, &scan.rows)
}

/// The first scan of a provider.
fn find_scan(scans: &Vec<ProviderScan>, source: ProviderTag) -> (r: Option<usize>)
    ensures
        match r {
            Some(k) => k < scans@.len() && scan_of(scan_records(scans@), source, 0) == Some(
                k as int,
            ),
            None => scan_of(scan_records(scans@), source, 0) is None,
        },
{
    let mut i: usize = 0;
    while i < scans.len()
        invariant
            i <= scans@.len(),
            scan_of(scan_records(scans@), source, 0) == scan_of(
                scan_records(scans@),
                source,
                i as int,
            ),
        decreases scans@.len() - i,
    {
        if scans[i].source == source {
            return Some(i);
        }
        i = i + 1;
    }
    None
}

/// Arbitrates between the providers that were scanned for a game, and binds
/// the game to the winner. Returns the winner; none without scans.
pub fn sync_achievements(db: &mut AchievementDatabase, app_id: u32, scans: &Vec<ProviderScan>) -> (r:
    Result<Option<ProviderTag>, EngineError>)
    requires
        old(db).wf(),
        scans_wf(scan_records(scans@)),
    ensures
        final(db).wf(),
        final(db).exclusions() == old(db).exclusions(),
        r matches Ok(Some(_)) && scans_of_game(scan_records(scans@), app_id)
            ==> crate::laws::single_provider(final(db)@, app_id),
        match r {
            Ok(chosen) => arbitrated(
                old(db)@,
                old(db).next_row_id(),
                app_id,
                scan_records(scans@),
            ) == Ok::<(Seq<AchievementRecord>, int, Option<ProviderTag>), EngineError>(
                (final(db)@, final(db).next_row_id(), chosen),
            ),
            Err(e) => arbitrated(old(db)@, old(db).next_row_id(), app_id, scan_records(scans@))
                == Err::<(Seq<AchievementRecord>, int, Option<ProviderTag>), EngineError>(e),
        },
{
    let counts = match check_game_sources(db, app_id, scans) {
        Ok(counts) => counts,
        Err(e) => {
            return Err(e);
        },
    };
    let chosen = match choose_provider(&counts) {
        Some(source) => source,
        None => {
            return Ok(None);
        },
    };
    let k = match find_scan(scans, chosen) {
        Some(k) => k,
        None => {
            return Ok(None);
        },
    };
    match add_game_from_source(db, app_id, &scans[k]) {
        Ok(_) => Ok(Some(chosen)),
        Err(e) => Err(e),
    }
}

} // verus!

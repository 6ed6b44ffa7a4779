//! The achievement store: one row for each game, achievement key and
//! provider, with the exclusion list beside it.

use crate::error::EngineError;
use crate::steam_achievements::opt_text;
use crate::text::{chars_of, precedes, text_precedes};
use vstd::prelude::*;

verus! {

/// Where a row's state comes from.
#[derive(Debug, Clone, Copy, PartialEq, Eq, Structural)]
pub enum ProviderTag {
    /// The platform's own per-game cache on disk.
    PlatformCache,
    /// The emulator that keeps a JSON file per game.
    EmulatorA,
    /// The emulator that keeps an INI file per game.
    EmulatorB,
    /// The platform's web API.
    RemoteApi,
    /// Written by the user.
    Manual,
}

/// The name under which a provider's rows are kept.
pub open spec fn tag_label(tag: ProviderTag) -> Seq<char> {
    match tag {
        ProviderTag::PlatformCache => "Steamtools"@,
        ProviderTag::EmulatorA => "Goldberg"@,
        ProviderTag::EmulatorB => "Online-fix"@,
        ProviderTag::RemoteApi => "Steam"@,
        ProviderTag::Manual => "Manual"@,
    }
}

/// The provider that a name stands for. The web API is known by two names.
pub open spec fn tag_of_label(label: Seq<char>) -> Option<ProviderTag> {
    if label == "Steamtools"@ {
        Some(ProviderTag::PlatformCache)
    } else if label == "Goldberg"@ {
        Some(ProviderTag::EmulatorA)
    } else if label == "Online-fix"@ {
        Some(ProviderTag::EmulatorB)
    } else if label == "Steam"@ || label == "Steam Web API"@ {
        Some(ProviderTag::RemoteApi)
    } else if label == "Manual"@ {
        Some(ProviderTag::Manual)
    } else {
        None
    }
}

impl ProviderTag {
    /// The name under which the provider's rows are kept.
    pub fn label(&self) -> (r: String)
        ensures
            r@ == tag_label(*self),
    {
        match self {
            ProviderTag::PlatformCache => "Steamtools".to_owned(),
            ProviderTag::EmulatorA => "Goldberg".to_owned(),
            ProviderTag::EmulatorB => "Online-fix".to_owned(),
            ProviderTag::RemoteApi => "Steam".to_owned(),
            ProviderTag::Manual => "Manual".to_owned(),
        }
    }

    /// The provider that a name stands for.
    pub fn from_label(label: &str) -> (r: Option<ProviderTag>)
        ensures
            r == tag_of_label(label@),
    {
        let text = label.to_owned();
        if text == "Steamtools".to_owned() {
            Some(ProviderTag::PlatformCache)
        } else if text == "Goldberg".to_owned() {
            Some(ProviderTag::EmulatorA)
        } else if text == "Online-fix".to_owned() {
            Some(ProviderTag::EmulatorB)
        } else if text == "Steam".to_owned() || text == "Steam Web API".to_owned() {
            Some(ProviderTag::RemoteApi)
        } else if text == "Manual".to_owned() {
            Some(ProviderTag::Manual)
        } else {
            None
        }
    }
}

/// The later of two times.
pub open spec fn later(a: i64, b: i64) -> i64 {
    if a >= b {
        a
    } else {
        b
    }
}

/// The later of two times.
pub fn later_of(a: i64, b: i64) -> (r: i64)
    ensures
        r == later(a, b),
{
    if a >= b {
        a
    } else {
        b
    }
}

/// One row of the store, as a mathematical value.
pub struct AchievementRecord {
    pub id: Option<i64>,
    pub app_id: u32,
    pub game_name: Seq<char>,
    pub achievement_id: Seq<char>,
    pub display_name: Seq<char>,
    pub description: Seq<char>,
    pub icon_url: Option<Seq<char>>,
    pub icon_gray_url: Option<Seq<char>>,
    pub hidden: bool,
    pub achieved: bool,
    pub unlock_time: Option<i64>,
    pub source: ProviderTag,
    pub last_updated: i64,
    pub global_unlock_percentage: Option<Seq<char>>,
}

impl AchievementRecord {
    /// A row has an unlock time only if it is unlocked.
    pub open spec fn wf(self) -> bool {
        self.unlock_time is Some ==> self.achieved
    }

    /// Whether two rows are for the same game, key and provider.
    pub open spec fn same_identity(self, other: AchievementRecord) -> bool {
        self.app_id == other.app_id && self.achievement_id == other.achievement_id && self.source
            == other.source
    }

    /// Whether the row is for this game, key and provider.
    pub open spec fn is_for(self, app_id: u32, key: Seq<char>, source: ProviderTag) -> bool {
        self.app_id == app_id && self.achievement_id == key && self.source == source
    }

    /// The row with another id.
    pub open spec fn with_id(self, id: Option<i64>) -> AchievementRecord {
        AchievementRecord { id, ..self }
    }

    /// The row with another unlock state, written at `now`. The time of the
    /// last write does not fall: it is the later of the row's and `now`.
    pub open spec fn with_status(self, achieved: bool, unlock_time: Option<i64>, now: i64)
        -> AchievementRecord {
        AchievementRecord {
            achieved,
            unlock_time,
            last_updated: later(self.last_updated, now),
            ..self
        }
    }

    /// The row as it is written over a stored row: every field is the new
    /// one, but the id stays, and the time of the last write is the later of
    /// the two.
    pub open spec fn written_over(self, stored: AchievementRecord) -> AchievementRecord {
        AchievementRecord {
            id: stored.id,
            last_updated: later(stored.last_updated, self.last_updated),
            ..self
        }
    }
}

/// One achievement of one game under one provider.
///
/// `global_unlock_percentage` is the share of all players who have the
/// achievement, as the decimal text of the number that the platform gave.
#[derive(Debug, Clone)]
pub struct Achievement {
    pub id: Option<i64>,
    pub app_id: u32,
    pub game_name: String,
    pub achievement_id: String,
    pub display_name: String,
    pub description: String,
    pub icon_url: Option<String>,
    pub icon_gray_url: Option<String>,
    pub hidden: bool,
    pub achieved: bool,
    pub unlock_time: Option<i64>,
    pub source: ProviderTag,
    pub last_updated: i64,
    pub global_unlock_percentage: Option<String>,
}

impl View for Achievement {
    type V = AchievementRecord;

    open spec fn view(&self) -> AchievementRecord {
        AchievementRecord {
            id: self.id,
            app_id: self.app_id,
            game_name: self.game_name@,
            achievement_id: self.achievement_id@,
            display_name: self.display_name@,
            description: self.description@,
            icon_url: opt_text(self.icon_url),
            icon_gray_url: opt_text(self.icon_gray_url),
            hidden: self.hidden,
            achieved: self.achieved,
            unlock_time: self.unlock_time,
            source: self.source,
            last_updated: self.last_updated,
            global_unlock_percentage: opt_text(self.global_unlock_percentage),
        }
    }
}

/// A copy of an optional text.
pub fn copy_opt_text(o: &Option<String>) -> (r: Option<String>)
    ensures
        r == *o,
{
    match o {
        Some(s) => Some(s.clone()),
        None => None,
    }
}

impl Achievement {
    /// A copy of the row.
    pub fn duplicate(&self) -> (r: Achievement)
        ensures
            r == *self,
    {
        Achievement {
            id: self.id,
            app_id: self.app_id,
            game_name: self.game_name.clone(),
            achievement_id: self.achievement_id.clone(),
            display_name: self.display_name.clone(),
            description: self.description.clone(),
            icon_url: copy_opt_text(&self.icon_url),
            icon_gray_url: copy_opt_text(&self.icon_gray_url),
            hidden: self.hidden,
            achieved: self.achieved,
            unlock_time: self.unlock_time,
            source: self.source,
            last_updated: self.last_updated,
            global_unlock_percentage: copy_opt_text(&self.global_unlock_percentage),
        }
    }
}

/// The rows of a list, each by its view.
pub open spec fn records(rows: Seq<Achievement>) -> Seq<AchievementRecord> {
    Seq::new(rows.len(), |i: int| rows[i]@)
}

/// What the store holds of one game under one provider, as a mathematical
/// value.
pub struct SummaryRecord {
    pub app_id: u32,
    pub game_name: Seq<char>,
    pub total_achievements: nat,
    pub unlocked_achievements: nat,
    pub source: ProviderTag,
    pub last_updated: i64,
}

/// What the store holds of one game under one provider: how many rows, how
/// many of them unlocked, and when the last of them was written.
#[derive(Debug, Clone)]
pub struct GameAchievementSummary {
    pub app_id: u32,
    pub game_name: String,
    pub total_achievements: usize,
    pub unlocked_achievements: usize,
    pub source: ProviderTag,
    pub last_updated: i64,
}

impl View for GameAchievementSummary {
    type V = SummaryRecord;

    open spec fn view(&self) -> SummaryRecord {
        SummaryRecord {
            app_id: self.app_id,
            game_name: self.game_name@,
            total_achievements: self.total_achievements as nat,
            unlocked_achievements: self.unlocked_achievements as nat,
            source: self.source,
            last_updated: self.last_updated,
        }
    }
}

/// A game that the engine must never watch or track by itself.
#[derive(Debug, Clone)]
pub struct Exclusion {
    pub app_id: u32,
    pub name: String,
}

/// The first row among `rows[from..]` for this game, key and provider.
pub open spec fn position_from(
    rows: Seq<AchievementRecord>,
    app_id: u32,
    key: Seq<char>,
    source: ProviderTag,
    from: int,
) -> Option<int>
    decreases rows.len() - from,
{
    if from < 0 || from >= rows.len() {
        None
    } else if rows[from].is_for(app_id, key, source) {
        Some(from)
    } else {
        position_from(rows, app_id, key, source, from + 1)
    }
}

/// The place of the row for this game, key and provider.
pub open spec fn position_of(
    rows: Seq<AchievementRecord>,
    app_id: u32,
    key: Seq<char>,
    source: ProviderTag,
) -> Option<int> {
    position_from(rows, app_id, key, source, 0)
}

/// `position_from` finds the first row of that identity, if there is one.
pub proof fn lemma_position_from(
    rows: Seq<AchievementRecord>,
    app_id: u32,
    key: Seq<char>,
    source: ProviderTag,
    from: int,
)
    requires
        0 <= from,
    ensures
        match position_from(rows, app_id, key, source, from) {
            Some(i) => from <= i < rows.len() && rows[i].is_for(app_id, key, source) && forall|
                j: int,
            |
                from <= j < i ==> !(#[trigger] rows[j]).is_for(app_id, key, source),
            None => forall|j: int|
                from <= j < rows.len() ==> !(#[trigger] rows[j]).is_for(app_id, key, source),
        },
    decreases rows.len() - from,
{
    if from < rows.len() && !rows[from].is_for(app_id, key, source) {
        lemma_position_from(rows, app_id, key, source, from + 1);
    }
}

/// Whether a table is well formed: every row has an id below `next_id` and
/// an unlock time only if it is unlocked, ids grow along the table, and no
/// two rows are for the same game, key and provider.
pub open spec fn table_wf(rows: Seq<AchievementRecord>, next_id: int) -> bool {
    &&& 1 <= next_id <= i64::MAX
    &&& forall|i: int|
        0 <= i < rows.len() ==> (#[trigger] rows[i]).id is Some && 1 <= rows[i].id.unwrap()
            < next_id && rows[i].wf()
    &&& forall|i: int, j: int|
        0 <= i < j < rows.len() ==> (#[trigger] rows[i]).id.unwrap() < (#[trigger] rows[j]).id.unwrap()
    &&& forall|i: int, j: int|
        0 <= i < j < rows.len() ==> !(#[trigger] rows[i]).same_identity(#[trigger] rows[j])
}

/// The table after a row was written: the row of the same game, key and
/// provider takes every field of the new row but keeps its id, and the later
/// of the two times of writing; where there is none, the new row is added
/// under the next id.
pub open spec fn upserted(rows: Seq<AchievementRecord>, next_id: int, a: AchievementRecord) -> Seq<
    AchievementRecord,
> {
    match position_of(rows, a.app_id, a.achievement_id, a.source) {
        Some(i) => rows.update(i, a.written_over(rows[i])),
        None => rows.push(a.with_id(Some(next_id as i64))),
    }
}

/// The first `n` rows without those of one game.
pub open spec fn without_game(rows: Seq<AchievementRecord>, app_id: u32, n: nat) -> Seq<
    AchievementRecord,
>
    decreases n,
{
    if n == 0 || n > rows.len() {
        Seq::empty()
    } else if rows[n - 1].app_id == app_id {
        without_game(rows, app_id, (n - 1) as nat)
    } else {
        without_game(rows, app_id, (n - 1) as nat).push(rows[n - 1])
    }
}

/// The first `n` rows without the scanned rows of one game: the rows of other
/// games stay, and so do the rows that the user wrote.
pub open spec fn without_scanned(rows: Seq<AchievementRecord>, app_id: u32, n: nat) -> Seq<
    AchievementRecord,
>
    decreases n,
{
    if n == 0 || n > rows.len() {
        Seq::empty()
    } else if rows[n - 1].app_id == app_id && rows[n - 1].source != ProviderTag::Manual {
        without_scanned(rows, app_id, (n - 1) as nat)
    } else {
        without_scanned(rows, app_id, (n - 1) as nat).push(rows[n - 1])
    }
}

/// The place of the row with this id among `rows[from..]`.
pub open spec fn row_with_id(rows: Seq<AchievementRecord>, id: i64, from: int) -> Option<int>
    decreases rows.len() - from,
{
    if from < 0 || from >= rows.len() {
        None
    } else if rows[from].id == Some(id) {
        Some(from)
    } else {
        row_with_id(rows, id, from + 1)
    }
}

/// The table after the unlock state of the row `id` was set at `now`; the
/// same table where no row has that id.
pub open spec fn with_status(
    rows: Seq<AchievementRecord>,
    id: i64,
    achieved: bool,
    unlock_time: Option<i64>,
    now: i64,
) -> Seq<AchievementRecord> {
    match row_with_id(rows, id, 0) {
        Some(i) => rows.update(i, rows[i].with_status(achieved, unlock_time, now)),
        None => rows,
    }
}

/// An excluded game, as a mathematical value.
pub struct ExclusionRecord {
    pub app_id: u32,
    pub name: Seq<char>,
}

impl View for Exclusion {
    type V = ExclusionRecord;

    open spec fn view(&self) -> ExclusionRecord {
        ExclusionRecord { app_id: self.app_id, name: self.name@ }
    }
}

/// The entries of an exclusion list, each by its view.
pub open spec fn exclusion_records(list: Seq<Exclusion>) -> Seq<ExclusionRecord> {
    Seq::new(list.len(), |i: int| list[i]@)
}

/// Whether a game is on an exclusion list.
pub open spec fn excludes(list: Seq<ExclusionRecord>, app_id: u32) -> bool {
    exists|i: int| 0 <= i < list.len() && (#[trigger] list[i]).app_id == app_id
}

/// No game is twice on an exclusion list.
pub open spec fn exclusions_wf(list: Seq<ExclusionRecord>) -> bool {
    forall|i: int, j: int|
        0 <= i < j < list.len() ==> (#[trigger] list[i]).app_id != (#[trigger] list[j]).app_id
}

/// The store of achievements and exclusions.
pub struct AchievementDatabase {
    rows: Vec<Achievement>,
    exclusions: Vec<Exclusion>,
    next_id: i64,
}

impl View for AchievementDatabase {
    type V = Seq<AchievementRecord>;

    /// The rows of the store, in the order of their ids.
    closed spec fn view(&self) -> Seq<AchievementRecord> {
        records(self.rows@)
    }
}

impl AchievementDatabase {
    /// The id that the next new row gets.
    pub closed spec fn next_row_id(&self) -> int {
        self.next_id as int
    }

    /// The exclusion list.
    pub closed spec fn exclusions(&self) -> Seq<ExclusionRecord> {
        exclusion_records(self.exclusions@)
    }

    /// Whether the store is well formed.
    pub open spec fn wf(&self) -> bool {
        table_wf(self@, self.next_row_id()) && exclusions_wf(self.exclusions())
    }

    /// An empty store.
    pub fn new() -> (db: AchievementDatabase)
        ensures
            db.wf(),
            db@ == Seq::<AchievementRecord>::empty(),
            db.exclusions() == Seq::<ExclusionRecord>::empty(),
            db.next_row_id() == 1,
    {
        let db = AchievementDatabase { rows: Vec::new(), exclusions: Vec::new(), next_id: 1 };
        db
    }

    /// The rows of the store, in the order of their ids.
    pub fn rows(&self) -> (r: &Vec<Achievement>)
        ensures
            records(r@) == self@,
    {
        &self.rows
    }

    /// The place of the row for a game, key and provider.
    fn find_row(&self, app_id: u32, key: &String, source: ProviderTag) -> (r: Option<usize>)
        ensures
            match r {
                Some(i) => position_of(self@, app_id, key@, source) == Some(i as int) && i
                    < self@.len(),
                None => position_of(self@, app_id, key@, source) is None,
            },
    {
        let mut i: usize = 0;
        while i < self.rows.len()
            invariant
                i <= self.rows@.len(),
                position_of(self@, app_id, key@, source) == position_from(
                    self@,
                    app_id,
                    key@,
                    source,
                    i as int,
                ),
            decreases self.rows@.len() - i,
        {
            let row = &self.rows[i];
            if row.app_id == app_id && row.achievement_id == *key && row.source == source {
                return Some(i);
            }
            i = i + 1;
        }
        None
    }

    /// Writes a row: inserts it, or overwrites the row of the same game, key
    /// and provider. The id of the given row is not read. Fails only where a
    /// new row is needed and no id is left.
    pub fn insert_or_update_achievement(&mut self, achievement: &Achievement) -> (r: Result<
        (),
        EngineError,
    >)
        requires
            old(self).wf(),
            achievement@.wf(),
        ensures
            final(self).wf(),
            r is Err <==> position_of(
                old(self)@,
                achievement.app_id,
                achievement.achievement_id@,
                achievement.source,
            ) is None && old(self).next_row_id() == i64::MAX,
            r is Err ==> r == Err::<(), EngineError>(EngineError::Storage) && final(self)@ == old(
                self,
            )@ && final(self).next_row_id() == old(self).next_row_id(),
            r is Ok ==> final(self)@ == upserted(
                old(self)@,
                old(self).next_row_id(),
                achievement@,
            ),
            crate::laws::times_kept(old(self)@, final(self)@),
            final(self).exclusions() == old(self).exclusions(),
            final(self).next_row_id() == if r is Ok && position_of(
                old(self)@,
                achievement.app_id,
                achievement.achievement_id@,
                achievement.source,
            ) is None {
                old(self).next_row_id() + 1
            } else {
                old(self).next_row_id()
            },
    {
        proof {
            lemma_position_from(
                self@,
                achievement.app_id,
                achievement.achievement_id@,
                achievement.source,
                0,
            );
            crate::laws::lemma_upsert_keeps_time(self@, self.next_row_id(), achievement@);
        }
        match self.find_row(achievement.app_id, &achievement.achievement_id, achievement.source) {
            Some(i) => {
                let mut row = achievement.duplicate();
                row.id = self.rows[i].id;
                row.last_updated = later_of(self.rows[i].last_updated, achievement.last_updated);
                let ghost before = self@;
                assert(before[i as int] == self.rows@[i as int]@);
                self.rows.set(i, row);
                assert(forall|j: int|
                    0 <= j < self@.len() && j != i ==> (#[trigger] self@[j]) == before[j]);
                Ok(())
            },
            None => {
                if self.next_id == i64::MAX {
                    return Err(EngineError::Storage);
                }
                let mut row = achievement.duplicate();
                row.id = Some(self.next_id);
                let ghost before = self@;
                self.rows.push(row);
                self.next_id = self.next_id + 1;
                assert(self@ == before.push(achievement@.with_id(Some((self.next_id - 1) as i64))));
                Ok(())
            },
        }
    }
}

/// Whether every row of `part` is a row of `rows`, in the same order.
pub open spec fn kept_in_order(part: Seq<AchievementRecord>, rows: Seq<AchievementRecord>) -> bool {
    exists|at: Seq<int>|
        at.len() == part.len() && (forall|k: int|
            0 <= k < at.len() ==> 0 <= #[trigger] at[k] < rows.len() && part[k] == rows[at[k]])
            && (forall|k: int, l: int| 0 <= k < l < at.len() ==> #[trigger] at[k] < #[trigger] at[l])
}

/// A part of a well-formed table, in the same order, is a well-formed table.
pub proof fn lemma_part_wf(part: Seq<AchievementRecord>, rows: Seq<AchievementRecord>, next_id: int)
    requires
        table_wf(rows, next_id),
        kept_in_order(part, rows),
    ensures
        table_wf(part, next_id),
{
    let at = choose|at: Seq<int>|
        at.len() == part.len() && (forall|k: int|
            0 <= k < at.len() ==> 0 <= #[trigger] at[k] < rows.len() && part[k] == rows[at[k]])
            && (forall|k: int, l: int| 0 <= k < l < at.len() ==> #[trigger] at[k] < #[trigger] at[l]);
    assert forall|i: int| 0 <= i < part.len() implies (#[trigger] part[i]).id is Some && 1
        <= part[i].id.unwrap() < next_id && part[i].wf() by {
        assert(part[i] == rows[at[i]]);
    }
    assert forall|i: int, j: int| 0 <= i < j < part.len() implies (#[trigger] part[i]).id.unwrap() < (
    #[trigger] part[j]).id.unwrap() && !part[i].same_identity(part[j]) by {
        assert(part[i] == rows[at[i]]);
        assert(part[j] == rows[at[j]]);
    }
}

/// What `without_game` keeps: the rows of the other games, all of them, in
/// the same order.
pub proof fn lemma_without_game(rows: Seq<AchievementRecord>, app_id: u32, n: nat)
    requires
        n <= rows.len(),
    ensures
        kept_in_order(without_game(rows, app_id, n), rows.take(n as int)),
        forall|k: int|
            0 <= k < without_game(rows, app_id, n).len() ==> (#[trigger] without_game(
                rows,
                app_id,
                n,
            )[k]).app_id != app_id,
        forall|i: int|
            0 <= i < n && rows[i].app_id != app_id ==> without_game(rows, app_id, n).contains(
                #[trigger] rows[i],
            ),
    decreases n,
{
    let part = without_game(rows, app_id, n);
    if n == 0 {
        assert(kept_in_order(part, rows.take(0))) by {
            let at = Seq::<int>::empty();
            assert(at.len() == part.len());
        }
    } else {
        lemma_without_game(rows, app_id, (n - 1) as nat);
        let before = without_game(rows, app_id, (n - 1) as nat);
        let at = choose|at: Seq<int>|
            at.len() == before.len() && (forall|k: int|
                0 <= k < at.len() ==> 0 <= #[trigger] at[k] < rows.take(n - 1).len() && before[k]
                    == rows.take(n - 1)[at[k]]) && (forall|k: int, l: int|
                0 <= k < l < at.len() ==> #[trigger] at[k] < #[trigger] at[l]);
        if rows[n - 1].app_id == app_id {
            assert(kept_in_order(part, rows.take(n as int))) by {
                assert(forall|k: int|
                    0 <= k < at.len() ==> 0 <= #[trigger] at[k] < rows.take(n as int).len() && part[k]
                        == rows.take(n as int)[at[k]]);
            }
        } else {
            let at2 = at.push(n - 1);
            assert(kept_in_order(part, rows.take(n as int))) by {
                assert(at2.len() == part.len());
                assert forall|k: int| 0 <= k < at2.len() implies 0 <= #[trigger] at2[k] < rows.take(
                    n as int,
                ).len() && part[k] == rows.take(n as int)[at2[k]] by {}
                assert forall|k: int, l: int| 0 <= k < l < at2.len() implies #[trigger] at2[k]
                    < #[trigger] at2[l] by {}
            }
            assert forall|i: int| 0 <= i < n && rows[i].app_id != app_id implies part.contains(
                #[trigger] rows[i],
            ) by {
                if i < n - 1 {
                    let k = choose|k: int| 0 <= k < before.len() && before[k] == rows[i];
                    assert(part[k] == rows[i]);
                } else {
                    assert(part[part.len() - 1] == rows[i]);
                }
            }
        }
    }
}

/// What `without_scanned` keeps: the rows of the other games and the rows
/// that the user wrote, all of them, in the same order.
pub proof fn lemma_without_scanned(rows: Seq<AchievementRecord>, app_id: u32, n: nat)
    requires
        n <= rows.len(),
    ensures
        kept_in_order(without_scanned(rows, app_id, n), rows.take(n as int)),
        forall|k: int|
            0 <= k < without_scanned(rows, app_id, n).len() ==> {
                let r = #[trigger] without_scanned(rows, app_id, n)[k];
                r.app_id != app_id || r.source == ProviderTag::Manual
            },
        forall|i: int|
            0 <= i < n && (rows[i].app_id != app_id || rows[i].source == ProviderTag::Manual)
                ==> without_scanned(rows, app_id, n).contains(#[trigger] rows[i]),
    decreases n,
{
    let part = without_scanned(rows, app_id, n);
    if n == 0 {
        assert(kept_in_order(part, rows.take(0))) by {
            let at = Seq::<int>::empty();
            assert(at.len() == part.len());
        }
    } else {
        lemma_without_scanned(rows, app_id, (n - 1) as nat);
        let before = without_scanned(rows, app_id, (n - 1) as nat);
        let at = choose|at: Seq<int>|
            at.len() == before.len() && (forall|k: int|
                0 <= k < at.len() ==> 0 <= #[trigger] at[k] < rows.take(n - 1).len() && before[k]
                    == rows.take(n - 1)[at[k]]) && (forall|k: int, l: int|
                0 <= k < l < at.len() ==> #[trigger] at[k] < #[trigger] at[l]);
        if rows[n - 1].app_id == app_id && rows[n - 1].source != ProviderTag::Manual {
            assert(kept_in_order(part, rows.take(n as int))) by {
                assert(forall|k: int|
                    0 <= k < at.len() ==> 0 <= #[trigger] at[k] < rows.take(n as int).len() && part[k]
                        == rows.take(n as int)[at[k]]);
            }
        } else {
            let at2 = at.push(n - 1);
            assert(kept_in_order(part, rows.take(n as int))) by {
                assert(at2.len() == part.len());
            }
            assert forall|i: int|
                0 <= i < n && (rows[i].app_id != app_id || rows[i].source
                    == ProviderTag::Manual) implies part.contains(#[trigger] rows[i]) by {
                if i < n - 1 {
                    let k = choose|k: int| 0 <= k < before.len() && before[k] == rows[i];
                    assert(part[k] == rows[i]);
                } else {
                    assert(part[part.len() - 1] == rows[i]);
                }
            }
        }
    }
}

/// `row_with_id` finds the row with the id, if there is one.
pub proof fn lemma_row_with_id(rows: Seq<AchievementRecord>, id: i64, from: int)
    requires
        0 <= from,
    ensures
        match row_with_id(rows, id, from) {
            Some(i) => from <= i < rows.len() && rows[i].id == Some(id),
            None => forall|j: int| from <= j < rows.len() ==> (#[trigger] rows[j]).id != Some(id),
        },
    decreases rows.len() - from,
{
    if from < rows.len() && rows[from].id != Some(id) {
        lemma_row_with_id(rows, id, from + 1);
    }
}

impl AchievementDatabase {
    /// Sets the unlock state of the row `id` and notes `now` as the time of
    /// the write, unless the row was written later than `now`. Nothing
    /// changes where no row has that id.
    pub fn update_achievement_status(
        &mut self,
        id: i64,
        achieved: bool,
        unlock_time: Option<i64>,
        now: i64,
    )
        requires
            old(self).wf(),
            achieved || unlock_time is None,
        ensures
            final(self).wf(),
            final(self)@ == with_status(old(self)@, id, achieved, unlock_time, now),
            crate::laws::times_kept(old(self)@, final(self)@),
            final(self).exclusions() == old(self).exclusions(),
            final(self).next_row_id() == old(self).next_row_id(),
    {
        proof {
            lemma_row_with_id(self@, id, 0);
            crate::laws::lemma_status_keeps_time(self@, id, achieved, unlock_time, now);
        }
        let mut i: usize = 0;
        while i < self.rows.len()
            invariant
                i <= self.rows@.len(),
                *self == *old(self),
                self.wf(),
                achieved || unlock_time is None,
                row_with_id(self@, id, 0) == row_with_id(self@, id, i as int),
            decreases self.rows@.len() - i,
        {
            let found = match self.rows[i].id {
                Some(row_id) => row_id == id,
                None => false,
            };
            if found {
                let mut row = self.rows[i].duplicate();
                row.achieved = achieved;
                row.unlock_time = unlock_time;
                row.last_updated = later_of(row.last_updated, now);
                let ghost before = self@;
                self.rows.set(i, row);
                assert(self@ == before.update(
                    i as int,
                    before[i as int].with_status(achieved, unlock_time, now),
                ));
                assert(forall|j: int|
                    0 <= j < self@.len() && j != i ==> (#[trigger] self@[j]) == before[j]);
                return ;
            }
            i = i + 1;
        }
    }

    /// Removes every row of a game.
    pub fn delete_game_achievements(&mut self, app_id: u32)
        requires
            old(self).wf(),
        ensures
            final(self).wf(),
            final(self)@ == without_game(old(self)@, app_id, old(self)@.len()),
            final(self).exclusions() == old(self).exclusions(),
            final(self).next_row_id() == old(self).next_row_id(),
    {
        let mut kept: Vec<Achievement> = Vec::new();
        let mut i: usize = 0;
        while i < self.rows.len()
            invariant
                i <= self.rows@.len(),
                *self == *old(self),
                records(kept@) == without_game(self@, app_id, i as nat),
            decreases self.rows@.len() - i,
        {
            if self.rows[i].app_id != app_id {
                let ghost before = records(kept@);
                kept.push(self.rows[i].duplicate());
            }
            i = i + 1;
        }
        proof {
            lemma_without_game(self@, app_id, self@.len());
            lemma_part_wf(records(kept@), self@, self.next_row_id());
        }
        self.rows = kept;
    }

    /// Removes the scanned rows of a game and keeps the rows that the user
    /// wrote.
    pub fn delete_scanned_achievements(&mut self, app_id: u32)
        requires
            old(self).wf(),
        ensures
            final(self).wf(),
            final(self)@ == without_scanned(old(self)@, app_id, old(self)@.len()),
            final(self).exclusions() == old(self).exclusions(),
            final(self).next_row_id() == old(self).next_row_id(),
    {
        let mut kept: Vec<Achievement> = Vec::new();
        let mut i: usize = 0;
        while i < self.rows.len()
            invariant
                i <= self.rows@.len(),
                *self == *old(self),
                records(kept@) == without_scanned(self@, app_id, i as nat),
            decreases self.rows@.len() - i,
        {
            let manual = match self.rows[i].source {
                ProviderTag::Manual => true,
                _ => false,
            };
            if self.rows[i].app_id != app_id || manual {
                kept.push(self.rows[i].duplicate());
            }
            i = i + 1;
        }
        proof {
            lemma_without_scanned(self@, app_id, self@.len());
            lemma_part_wf(records(kept@), self@, self.next_row_id());
        }
        self.rows = kept;
    }
}

// ---------------------------------------------------------------------------
// The rows of one game, ordered by key
// ---------------------------------------------------------------------------
/// Where a row with this key goes among `rows[from..]`, which are ordered by
/// key: before the first row whose key comes after it.
pub open spec fn insertion_place(rows: Seq<AchievementRecord>, key: Seq<char>, from: int) -> int
    decreases rows.len() - from,
{
    if from < 0 || from >= rows.len() {
        rows.len() as int
    } else if text_precedes(key, rows[from].achievement_id) {
        from
    } else {
        insertion_place(rows, key, from + 1)
    }
}

/// Those of the first `n` rows that belong to a game, ordered by key; rows
/// of one key stay in the order of their ids.
pub open spec fn game_listing(rows: Seq<AchievementRecord>, app_id: u32, n: nat) -> Seq<
    AchievementRecord,
>
    decreases n,
{
    if n == 0 || n > rows.len() {
        Seq::empty()
    } else {
        let before = game_listing(rows, app_id, (n - 1) as nat);
        if rows[n - 1].app_id == app_id {
            before.insert(insertion_place(before, rows[n - 1].achievement_id, 0), rows[n - 1])
        } else {
            before
        }
    }
}

/// The rows of a game in a table, ordered by key.
pub open spec fn rows_of_game(rows: Seq<AchievementRecord>, app_id: u32) -> Seq<AchievementRecord> {
    game_listing(rows, app_id, rows.len())
}

/// `insertion_place` is a place in the list.
pub proof fn lemma_insertion_place(rows: Seq<AchievementRecord>, key: Seq<char>, from: int)
    requires
        0 <= from <= rows.len(),
    ensures
        from <= insertion_place(rows, key, from) <= rows.len(),
    decreases rows.len() - from,
{
    if from < rows.len() && !text_precedes(key, rows[from].achievement_id) {
        lemma_insertion_place(rows, key, from + 1);
    }
}

impl AchievementDatabase {
    /// The rows of a game, ordered by key.
    pub fn get_game_achievements(&self, app_id: u32) -> (r: Vec<Achievement>)
        ensures
            records(r@) == rows_of_game(self@, app_id),
            crate::laws::ordered_by_key(records(r@)),
            forall|k: int|
                0 <= k < r@.len() ==> (#[trigger] records(r@)[k]).app_id == app_id
                    && self@.contains(records(r@)[k]),
            forall|j: int|
                0 <= j < self@.len() && self@[j].app_id == app_id ==> records(r@).contains(
                    #[trigger] self@[j],
                ),
    {
        proof {
            crate::laws::lemma_listing_ordered(self@, app_id, self@.len());
            lemma_listing_rows(self@, app_id, self@.len());
        }
        let mut out: Vec<Achievement> = Vec::new();
        let mut i: usize = 0;
        while i < self.rows.len()
            invariant
                i <= self.rows@.len(),
                records(out@) == game_listing(self@, app_id, i as nat),
            decreases self.rows@.len() - i,
        {
            if self.rows[i].app_id == app_id {
                let key = chars_of(self.rows[i].achievement_id.as_str());
                let ghost before = records(out@);
                let mut at: usize = 0;
                proof {
                    lemma_insertion_place(before, key@, 0);
                }
                while at < out.len() && !precedes(&key, &chars_of(out[at].achievement_id.as_str()))
                    invariant
                        at <= out@.len(),
                        before == records(out@),
                        insertion_place(before, key@, 0) == insertion_place(before, key@, at as int),
                    decreases out@.len() - at,
                {
                    at = at + 1;
                }
                out.insert(at, self.rows[i].duplicate());
            }
            i = i + 1;
        }
        out
    }
}

// ---------------------------------------------------------------------------
// Summaries
// ---------------------------------------------------------------------------
/// The place of the summary of a game under a provider among `sums[from..]`.
pub open spec fn summary_place(sums: Seq<SummaryRecord>, app_id: u32, source: ProviderTag, from: int)
    -> Option<int>
    decreases sums.len() - from,
{
    if from < 0 || from >= sums.len() {
        None
    } else if sums[from].app_id == app_id && sums[from].source == source {
        Some(from)
    } else {
        summary_place(sums, app_id, source, from + 1)
    }
}

/// The summary of a row alone.
pub open spec fn summary_of_row(row: AchievementRecord) -> SummaryRecord {
    SummaryRecord {
        app_id: row.app_id,
        game_name: row.game_name,
        total_achievements: 1,
        unlocked_achievements: if row.achieved {
            1
        } else {
            0
        },
        source: row.source,
        last_updated: row.last_updated,
    }
}

/// A summary with one more row counted in. The name of the game is that of
/// the row written last, the earliest of them where several were.
pub open spec fn summary_with_row(sum: SummaryRecord, row: AchievementRecord) -> SummaryRecord {
    SummaryRecord {
        app_id: sum.app_id,
        game_name: if row.last_updated > sum.last_updated {
            row.game_name
        } else {
            sum.game_name
        },
        total_achievements: sum.total_achievements + 1,
        unlocked_achievements: if row.achieved {
            sum.unlocked_achievements + 1
        } else {
            sum.unlocked_achievements
        },
        source: sum.source,
        last_updated: if row.last_updated > sum.last_updated {
            row.last_updated
        } else {
            sum.last_updated
        },
    }
}

/// The summaries of the first `n` rows, one for each game and provider, in
/// the order in which the games and providers first occur.
pub open spec fn summaries(rows: Seq<AchievementRecord>, n: nat) -> Seq<SummaryRecord>
    decreases n,
{
    if n == 0 || n > rows.len() {
        Seq::empty()
    } else {
        let before = summaries(rows, (n - 1) as nat);
        let row = rows[n - 1];
        match summary_place(before, row.app_id, row.source, 0) {
            Some(i) => before.update(i, summary_with_row(before[i], row)),
            None => before.push(summary_of_row(row)),
        }
    }
}

/// Where a summary with this name goes among `sums[from..]`, which are
/// ordered by name.
pub open spec fn name_place(sums: Seq<SummaryRecord>, name: Seq<char>, from: int) -> int
    decreases sums.len() - from,
{
    if from < 0 || from >= sums.len() {
        sums.len() as int
    } else if text_precedes(name, sums[from].game_name) {
        from
    } else {
        name_place(sums, name, from + 1)
    }
}

/// The first `n` summaries ordered by the name of the game, those of one name
/// in their former order.
pub open spec fn ordered_by_name(sums: Seq<SummaryRecord>, n: nat) -> Seq<SummaryRecord>
    decreases n,
{
    if n == 0 || n > sums.len() {
        Seq::empty()
    } else {
        let before = ordered_by_name(sums, (n - 1) as nat);
        before.insert(name_place(before, sums[n - 1].game_name, 0), sums[n - 1])
    }
}

/// The summaries of a table, ordered by the name of the game.
pub open spec fn all_games(rows: Seq<AchievementRecord>) -> Seq<SummaryRecord> {
    ordered_by_name(summaries(rows, rows.len()), summaries(rows, rows.len()).len())
}

/// The summaries of a list, each by its view.
pub open spec fn summary_records(sums: Seq<GameAchievementSummary>) -> Seq<SummaryRecord> {
    Seq::new(sums.len(), |i: int| sums[i]@)
}

/// `summary_place` is a place in the list, of a summary of that game and
/// provider.
pub proof fn lemma_summary_place(
    sums: Seq<SummaryRecord>,
    app_id: u32,
    source: ProviderTag,
    from: int,
)
    requires
        0 <= from,
    ensures
        summary_place(sums, app_id, source, from) matches Some(i) ==> from <= i < sums.len()
            && sums[i].app_id == app_id && sums[i].source == source,
    decreases sums.len() - from,
{
    if from < sums.len() && !(sums[from].app_id == app_id && sums[from].source == source) {
        lemma_summary_place(sums, app_id, source, from + 1);
    }
}

/// No summary counts more rows than there are, nor more unlocked rows than
/// rows.
pub proof fn lemma_summaries_bounded(rows: Seq<AchievementRecord>, n: nat)
    requires
        n <= rows.len(),
    ensures
        forall|k: int|
            0 <= k < summaries(rows, n).len() ==> (#[trigger] summaries(
                rows,
                n,
            )[k]).unlocked_achievements <= summaries(rows, n)[k].total_achievements <= n,
    decreases n,
{
    if n > 0 {
        lemma_summaries_bounded(rows, (n - 1) as nat);
        let before = summaries(rows, (n - 1) as nat);
        let row = rows[n - 1];
        lemma_summary_place(before, row.app_id, row.source, 0);
    }
}

/// `name_place` is a place in the list.
pub proof fn lemma_name_place(sums: Seq<SummaryRecord>, name: Seq<char>, from: int)
    requires
        0 <= from <= sums.len(),
    ensures
        from <= name_place(sums, name, from) <= sums.len(),
    decreases sums.len() - from,
{
    if from < sums.len() && !text_precedes(name, sums[from].game_name) {
        lemma_name_place(sums, name, from + 1);
    }
}

/// The place of the summary of a game under a provider.
fn find_summary(sums: &Vec<GameAchievementSummary>, app_id: u32, source: ProviderTag) -> (r: Option<
    usize,
>)
    ensures
        match r {
            Some(k) => summary_place(summary_records(sums@), app_id, source, 0) == Some(k as int)
                && k < sums@.len(),
            None => summary_place(summary_records(sums@), app_id, source, 0) is None,
        },
{
    let mut k: usize = 0;
    while k < sums.len()
        invariant
            k <= sums@.len(),
            summary_place(summary_records(sums@), app_id, source, 0) == summary_place(
                summary_records(sums@),
                app_id,
                source,
                k as int,
            ),
        decreases sums@.len() - k,
    {
        if sums[k].app_id == app_id && sums[k].source == source {
            return Some(k);
        }
        k = k + 1;
    }
    None
}

impl GameAchievementSummary {
    /// A copy of the summary.
    pub fn duplicate(&self) -> (r: GameAchievementSummary)
        ensures
            r == *self,
    {
        GameAchievementSummary {
            app_id: self.app_id,
            game_name: self.game_name.clone(),
            total_achievements: self.total_achievements,
            unlocked_achievements: self.unlocked_achievements,
            source: self.source,
            last_updated: self.last_updated,
        }
    }
}

impl AchievementDatabase {
    /// One summary for each game and provider in the store, ordered by the
    /// name of the game.
    pub fn get_all_games(&self) -> (r: Vec<GameAchievementSummary>)
        ensures
            summary_records(r@) == all_games(self@),
            forall|k: int|
                0 <= k < r@.len() ==> crate::laws::summary_counts(
                    #[trigger] summary_records(r@)[k],
                    self@,
                    self@.len(),
                ),
            crate::laws::ordered_by_game_name(summary_records(r@)),
    {
        proof {
            crate::laws::lemma_all_games(self@);
            crate::laws::lemma_games_ordered(
                summaries(self@, self@.len()),
                summaries(self@, self@.len()).len(),
            );
        }
        let mut sums: Vec<GameAchievementSummary> = Vec::new();
        let mut i: usize = 0;
        while i < self.rows.len()
            invariant
                i <= self.rows@.len(),
                summary_records(sums@) == summaries(self@, i as nat),
            decreases self.rows@.len() - i,
        {
            let row = &self.rows[i];
            let ghost before = summary_records(sums@);
            proof {
                lemma_summaries_bounded(self@, i as nat);
                lemma_summary_place(before, row.app_id, row.source, 0);
            }
            let found = find_summary(&sums, row.app_id, row.source);
            match found {
                Some(k) => {
                    let old_sum = &sums[k];
                    let newer = row.last_updated > old_sum.last_updated;
                    let sum = GameAchievementSummary {
                        app_id: old_sum.app_id,
                        game_name: if newer {
                            row.game_name.clone()
                        } else {
                            old_sum.game_name.clone()
                        },
                        total_achievements: old_sum.total_achievements + 1,
                        unlocked_achievements: if row.achieved {
                            old_sum.unlocked_achievements + 1
                        } else {
                            old_sum.unlocked_achievements
                        },
                        source: old_sum.source,
                        last_updated: if newer {
                            row.last_updated
                        } else {
                            old_sum.last_updated
                        },
                    };
                    sums.set(k, sum);
                    assert(summary_records(sums@) == before.update(
                        k as int,
                        summary_with_row(before[k as int], row@),
                    ));
                },
                None => {
                    sums.push(
                        GameAchievementSummary {
                            app_id: row.app_id,
                            game_name: row.game_name.clone(),
                            total_achievements: 1,
                            unlocked_achievements: if row.achieved {
                                1
                            } else {
                                0
                            },
                            source: row.source,
                            last_updated: row.last_updated,
                        },
                    );
                },
            }
            i = i + 1;
        }
        let mut out: Vec<GameAchievementSummary> = Vec::new();
        let mut j: usize = 0;
        while j < sums.len()
            invariant
                j <= sums@.len(),
                summary_records(out@) == ordered_by_name(summary_records(sums@), j as nat),
            decreases sums@.len() - j,
        {
            let name = chars_of(sums[j].game_name.as_str());
            let ghost before = summary_records(out@);
            proof {
                lemma_name_place(before, name@, 0);
            }
            let mut at: usize = 0;
            while at < out.len() && !precedes(&name, &chars_of(out[at].game_name.as_str()))
                invariant
                    at <= out@.len(),
                    before == summary_records(out@),
                    name_place(before, name@, 0) == name_place(before, name@, at as int),
                decreases out@.len() - at,
            {
                at = at + 1;
            }
            out.insert(at, sums[j].duplicate());
            j = j + 1;
        }
        out
    }
}

// ---------------------------------------------------------------------------
// Exclusions
// ---------------------------------------------------------------------------
/// The place of a game among `list[from..]`.
pub open spec fn exclusion_place(list: Seq<ExclusionRecord>, app_id: u32, from: int) -> Option<int>
    decreases list.len() - from,
{
    if from < 0 || from >= list.len() {
        None
    } else if list[from].app_id == app_id {
        Some(from)
    } else {
        exclusion_place(list, app_id, from + 1)
    }
}

/// `exclusion_place` finds the game on the list, if it is there.
pub proof fn lemma_exclusion_place(list: Seq<ExclusionRecord>, app_id: u32, from: int)
    requires
        0 <= from,
    ensures
        match exclusion_place(list, app_id, from) {
            Some(i) => from <= i < list.len() && list[i].app_id == app_id,
            None => forall|j: int| from <= j < list.len() ==> (#[trigger] list[j]).app_id != app_id,
        },
    decreases list.len() - from,
{
    if from < list.len() && list[from].app_id != app_id {
        lemma_exclusion_place(list, app_id, from + 1);
    }
}

/// The list after a game was excluded under a name: a game already on the
/// list takes the new name.
pub open spec fn with_exclusion(list: Seq<ExclusionRecord>, app_id: u32, name: Seq<char>) -> Seq<
    ExclusionRecord,
> {
    match exclusion_place(list, app_id, 0) {
        Some(i) => list.update(i, ExclusionRecord { app_id, name }),
        None => list.push(ExclusionRecord { app_id, name }),
    }
}

/// The list without a game.
pub open spec fn without_exclusion(list: Seq<ExclusionRecord>, app_id: u32) -> Seq<ExclusionRecord> {
    match exclusion_place(list, app_id, 0) {
        Some(i) => list.remove(i),
        None => list,
    }
}

impl AchievementDatabase {
    /// The place of a game on the exclusion list.
    fn find_exclusion(&self, app_id: u32) -> (r: Option<usize>)
        ensures
            match r {
                Some(i) => exclusion_place(self.exclusions(), app_id, 0) == Some(i as int) && i
                    < self.exclusions().len(),
                None => exclusion_place(self.exclusions(), app_id, 0) is None,
            },
    {
        let mut i: usize = 0;
        while i < self.exclusions.len()
            invariant
                i <= self.exclusions@.len(),
                exclusion_place(self.exclusions(), app_id, 0) == exclusion_place(
                    self.exclusions(),
                    app_id,
                    i as int,
                ),
            decreases self.exclusions@.len() - i,
        {
            if self.exclusions[i].app_id == app_id {
                return Some(i);
            }
            i = i + 1;
        }
        None
    }

    /// Whether the engine must leave a game alone.
    pub fn is_excluded(&self, app_id: u32) -> (r: bool)
        ensures
            r == excludes(self.exclusions(), app_id),
    {
        proof {
            lemma_exclusion_place(self.exclusions(), app_id, 0);
        }
        self.find_exclusion(app_id).is_some()
    }

    /// Puts a game on the exclusion list.
    pub fn add_exclusion(&mut self, app_id: u32, name: String)
        requires
            old(self).wf(),
        ensures
            final(self).wf(),
            final(self).exclusions() == with_exclusion(old(self).exclusions(), app_id, name@),
            excludes(final(self).exclusions(), app_id),
            final(self)@ == old(self)@,
            final(self).next_row_id() == old(self).next_row_id(),
    {
        proof {
            lemma_exclusion_place(self.exclusions(), app_id, 0);
        }
        let ghost before = self.exclusions();
        match self.find_exclusion(app_id) {
            Some(i) => {
                self.exclusions.set(i, Exclusion { app_id, name });
                assert(self.exclusions() == before.update(
                    i as int,
                    ExclusionRecord { app_id, name: name@ },
                ));
                assert(self.exclusions()[i as int].app_id == app_id);
            },
            None => {
                self.exclusions.push(Exclusion { app_id, name });
                assert(self.exclusions() == before.push(ExclusionRecord { app_id, name: name@ }));
                assert(self.exclusions()[before.len() as int].app_id == app_id);
            },
        }
    }

    /// Takes a game off the exclusion list.
    pub fn remove_exclusion(&mut self, app_id: u32)
        requires
            old(self).wf(),
        ensures
            final(self).wf(),
            final(self).exclusions() == without_exclusion(old(self).exclusions(), app_id),
            !excludes(final(self).exclusions(), app_id),
            final(self)@ == old(self)@,
            final(self).next_row_id() == old(self).next_row_id(),
    {
        proof {
            lemma_exclusion_place(self.exclusions(), app_id, 0);
        }
        let ghost before = self.exclusions();
        match self.find_exclusion(app_id) {
            Some(i) => {
                self.exclusions.remove(i);
                assert(self.exclusions() == before.remove(i as int));
            },
            None => {},
        }
    }

    /// The exclusion list.
    pub fn get_all_exclusions(&self) -> (r: Vec<Exclusion>)
        ensures
            exclusion_records(r@) == self.exclusions(),
    {
        let mut out: Vec<Exclusion> = Vec::new();
        let mut i: usize = 0;
        while i < self.exclusions.len()
            invariant
                i <= self.exclusions@.len(),
                exclusion_records(out@) == self.exclusions().take(i as int),
            decreases self.exclusions@.len() - i,
        {
            let e = &self.exclusions[i];
            out.push(Exclusion { app_id: e.app_id, name: e.name.clone() });
            assert(self.exclusions().take(i + 1) == self.exclusions().take(i as int).push(e@));
            i = i + 1;
        }
        out
    }

    /// Takes in a row that was stored before, with its id. The rows must
    /// come in the order of their ids; a row that does not fit the store is
    /// refused and nothing changes.
    pub fn load_row(&mut self, row: &Achievement) -> (r: Result<(), EngineError>)
        requires
            old(self).wf(),
        ensures
            final(self).wf(),
            final(self).exclusions() == old(self).exclusions(),
            r is Ok <==> row@.wf() && row.id is Some && old(self).next_row_id() <= row.id.unwrap()
                < i64::MAX && position_of(old(self)@, row.app_id, row.achievement_id@, row.source)
                is None,
            r is Ok ==> final(self)@ == old(self)@.push(row@) && final(self).next_row_id()
                == row.id.unwrap() + 1,
            r is Err ==> r == Err::<(), EngineError>(EngineError::Storage) && final(self)@ == old(
                self,
            )@ && final(self).next_row_id() == old(self).next_row_id(),
    {
        proof {
            lemma_position_from(self@, row.app_id, row.achievement_id@, row.source, 0);
        }
        let id = match row.id {
            Some(id) => id,
            None => {
                return Err(EngineError::Storage);
            },
        };
        if row.unlock_time.is_some() && !row.achieved {
            return Err(EngineError::Storage);
        }
        if id < self.next_id || id == i64::MAX {
            return Err(EngineError::Storage);
        }
        if self.find_row(row.app_id, &row.achievement_id, row.source).is_some() {
            return Err(EngineError::Storage);
        }
        let ghost before = self@;
        self.rows.push(row.duplicate());
        self.next_id = id + 1;
        assert(self@ == before.push(row@));
        Ok(())
    }
}

// ---------------------------------------------------------------------------
// Backup of a game's unlocks
// ---------------------------------------------------------------------------
/// One entry of a backup, as a mathematical value.
pub struct BackupRecord {
    pub achievement_id: Seq<char>,
    pub unlock_time: i64,
}

/// One entry of a backup: an unlocked achievement and the time of its
/// unlock, zero where the time is not known.
#[derive(Debug, Clone)]
pub struct BackupEntry {
    pub achievement_id: String,
    pub unlock_time: i64,
}

impl View for BackupEntry {
    type V = BackupRecord;

    open spec fn view(&self) -> BackupRecord {
        BackupRecord { achievement_id: self.achievement_id@, unlock_time: self.unlock_time }
    }
}

/// The entries of a backup, each by its view.
pub open spec fn backup_records(list: Seq<BackupEntry>) -> Seq<BackupRecord> {
    Seq::new(list.len(), |i: int| list[i]@)
}

/// The entry that a backup holds for a row.
pub open spec fn backup_of_row(row: AchievementRecord) -> BackupRecord {
    BackupRecord {
        achievement_id: row.achievement_id,
        unlock_time: match row.unlock_time {
            Some(t) => t,
            None => 0,
        },
    }
}

/// The backup of the first `n` rows of a listing: one entry for each
/// unlocked row, in the order of the listing.
pub open spec fn exported(listing: Seq<AchievementRecord>, n: nat) -> Seq<BackupRecord>
    decreases n,
{
    if n == 0 || n > listing.len() {
        Seq::empty()
    } else if listing[n - 1].achieved {
        exported(listing, (n - 1) as nat).push(backup_of_row(listing[n - 1]))
    } else {
        exported(listing, (n - 1) as nat)
    }
}

/// The backup of a game in a table.
pub open spec fn exported_game(rows: Seq<AchievementRecord>, app_id: u32) -> Seq<BackupRecord> {
    exported(rows_of_game(rows, app_id), rows_of_game(rows, app_id).len())
}

/// The time that the first `n` entries of a backup hold for a key: that of
/// the last entry with the key.
pub open spec fn backup_time(backup: Seq<BackupRecord>, key: Seq<char>, n: nat) -> Option<i64>
    decreases n,
{
    if n == 0 || n > backup.len() {
        None
    } else if backup[n - 1].achievement_id == key {
        Some(backup[n - 1].unlock_time)
    } else {
        backup_time(backup, key, (n - 1) as nat)
    }
}

/// The time that an entry of a backup stands for: zero stands for a time
/// that is not known.
pub open spec fn known_time(t: i64) -> Option<i64> {
    if t == 0 {
        None
    } else {
        Some(t)
    }
}

/// A row after a backup of a game was restored at `now`: a row of the game
/// whose key the backup holds is unlocked at the time of the backup, as far
/// as the backup knows it; any other row is as it was.
pub open spec fn restored_row(
    row: AchievementRecord,
    app_id: u32,
    backup: Seq<BackupRecord>,
    now: i64,
) -> AchievementRecord {
    if row.app_id == app_id {
        match backup_time(backup, row.achievement_id, backup.len()) {
            Some(t) => row.with_status(true, known_time(t), now),
            None => row,
        }
    } else {
        row
    }
}

/// A table after a backup of a game was restored at `now`.
pub open spec fn restored(
    rows: Seq<AchievementRecord>,
    app_id: u32,
    backup: Seq<BackupRecord>,
    now: i64,
) -> Seq<AchievementRecord> {
    Seq::new(rows.len(), |i: int| restored_row(rows[i], app_id, backup, now))
}

/// How many of the first `n` rows a backup of a game holds.
pub open spec fn restorable(
    rows: Seq<AchievementRecord>,
    app_id: u32,
    backup: Seq<BackupRecord>,
    n: nat,
) -> nat
    decreases n,
{
    if n == 0 || n > rows.len() {
        0
    } else if rows[n - 1].app_id == app_id && backup_time(
        backup,
        rows[n - 1].achievement_id,
        backup.len(),
    ) is Some {
        restorable(rows, app_id, backup, (n - 1) as nat) + 1
    } else {
        restorable(rows, app_id, backup, (n - 1) as nat)
    }
}

/// The time that a backup holds for a key.
pub fn lookup_backup(backup: &Vec<BackupEntry>, key: &String) -> (r: Option<i64>)
    ensures
        r == backup_time(backup_records(backup@), key@, backup@.len()),
{
    let mut n: usize = backup.len();
    while n > 0
        invariant
            n <= backup@.len(),
            backup_time(backup_records(backup@), key@, backup@.len()) == backup_time(
                backup_records(backup@),
                key@,
                n as nat,
            ),
        decreases n,
    {
        if backup[n - 1].achievement_id == *key {
            return Some(backup[n - 1].unlock_time);
        }
        n = n - 1;
    }
    None
}

impl AchievementDatabase {
    /// The backup of a game: its unlocked rows with their unlock times, in
    /// the order of their keys.
    pub fn export_unlocked_for_game(&self, app_id: u32) -> (r: Vec<BackupEntry>)
        ensures
            backup_records(r@) == exported_game(self@, app_id),
    {
        let listing = self.get_game_achievements(app_id);
        let mut out: Vec<BackupEntry> = Vec::new();
        let mut i: usize = 0;
        while i < listing.len()
            invariant
                i <= listing@.len(),
                backup_records(out@) == exported(records(listing@), i as nat),
            decreases listing@.len() - i,
        {
            let row = &listing[i];
            if row.achieved {
                let ghost before = backup_records(out@);
                out.push(
                    BackupEntry {
                        achievement_id: row.achievement_id.clone(),
                        unlock_time: match row.unlock_time {
                            Some(t) => t,
                            None => 0,
                        },
                    },
                );
            }
            i = i + 1;
        }
        out
    }

    /// Restores a backup of a game at `now`: every row of the game whose key
    /// the backup holds is unlocked at the time of the backup, zero standing
    /// for a time that is not known; the other rows stay as they are. Returns
    /// how many rows the backup held.
    pub fn restore_from_backup(&mut self, app_id: u32, backup: &Vec<BackupEntry>, now: i64) -> (count:
        usize)
        requires
            old(self).wf(),
        ensures
            final(self).wf(),
            final(self)@ == restored(old(self)@, app_id, backup_records(backup@), now),
            crate::laws::times_kept(old(self)@, final(self)@),
            count == restorable(old(self)@, app_id, backup_records(backup@), old(self)@.len()),
            final(self).exclusions() == old(self).exclusions(),
            final(self).next_row_id() == old(self).next_row_id(),
    {
        let ghost start = self@;
        proof {
            crate::laws::lemma_restore_keeps_time(start, app_id, backup_records(backup@), now);
        }
        let ghost entries = backup_records(backup@);
        let mut count: usize = 0;
        let mut i: usize = 0;
        while i < self.rows.len()
            invariant
                i <= self.rows@.len(),
                self.wf(),
                entries == backup_records(backup@),
                self@.len() == start.len(),
                forall|j: int|
                    0 <= j < i ==> #[trigger] self@[j] == restored_row(
                        start[j],
                        app_id,
                        entries,
                        now,
                    ),
                forall|j: int| i <= j < start.len() ==> #[trigger] self@[j] == start[j],
                count == restorable(start, app_id, entries, i as nat),
                count <= i,
                self.exclusions() == old(self).exclusions(),
                self.next_row_id() == old(self).next_row_id(),
            decreases self.rows@.len() - i,
        {
            assert(self@[i as int] == self.rows@[i as int]@);
            if self.rows[i].app_id == app_id {
                match lookup_backup(backup, &self.rows[i].achievement_id) {
                    Some(t) => {
                        let mut row = self.rows[i].duplicate();
                        row.achieved = true;
                        row.unlock_time = if t == 0 {
                            None
                        } else {
                            Some(t)
                        };
                        row.last_updated = later_of(row.last_updated, now);
                        let ghost before = self@;
                        self.rows.set(i, row);
                        assert(self@ == before.update(
                            i as int,
                            before[i as int].with_status(true, known_time(t), now),
                        ));
                        assert(forall|j: int|
                            0 <= j < self@.len() && j != i ==> (#[trigger] self@[j]) == before[j]);
                        count = count + 1;
                    },
                    None => {},
                }
            }
            i = i + 1;
        }
        count
    }
}

// ---------------------------------------------------------------------------
// What a listing holds
// ---------------------------------------------------------------------------
/// A listing holds the rows of the game, and every row of the game.
pub proof fn lemma_listing_rows(rows: Seq<AchievementRecord>, app_id: u32, n: nat)
    requires
        n <= rows.len(),
    ensures
        forall|k: int|
            0 <= k < game_listing(rows, app_id, n).len() ==> (#[trigger] game_listing(
                rows,
                app_id,
                n,
            )[k]).app_id == app_id && rows.take(n as int).contains(game_listing(rows, app_id, n)[k]),
        forall|j: int|
            0 <= j < n && rows[j].app_id == app_id ==> game_listing(rows, app_id, n).contains(
                #[trigger] rows[j],
            ),
    decreases n,
{
    if n > 0 {
        lemma_listing_rows(rows, app_id, (n - 1) as nat);
        let before = game_listing(rows, app_id, (n - 1) as nat);
        let after = game_listing(rows, app_id, n);
        let row = rows[n - 1];
        if row.app_id == app_id {
            let at = insertion_place(before, row.achievement_id, 0);
            lemma_insertion_place(before, row.achievement_id, 0);
            assert forall|k: int| 0 <= k < after.len() implies (#[trigger] after[k]).app_id
                == app_id && rows.take(n as int).contains(after[k]) by {
                if k < at {
                    let prev = rows.take(n - 1);
                    let j = choose|j: int| 0 <= j < prev.len() && (#[trigger] prev[j]) == before[k];
                } else if k == at {
                    assert(rows.take(n as int)[n - 1] == row);
                } else {
                    let prev = rows.take(n - 1);
                    let j = choose|j: int|
                        0 <= j < prev.len() && (#[trigger] prev[j]) == before[k - 1];
                }
            }
            assert forall|j: int| 0 <= j < n && rows[j].app_id == app_id implies after.contains(
                #[trigger] rows[j],
            ) by {
                if j < n - 1 {
                    let k = choose|k: int| 0 <= k < before.len() && (#[trigger] before[k]) == rows[j];
                    if k < at {
                        assert(after[k] == rows[j]);
                    } else {
                        assert(after[k + 1] == rows[j]);
                    }
                } else {
                    assert(after[at] == rows[j]);
                }
            }
        } else {
        }
    }
}

/// In a well-formed table, a row is found at the place of its game, key and
/// provider.
pub proof fn lemma_row_position(rows: Seq<AchievementRecord>, next_id: int, j: int)
    requires
        table_wf(rows, next_id),
        0 <= j < rows.len(),
    ensures
        position_of(rows, rows[j].app_id, rows[j].achievement_id, rows[j].source) == Some(j),
{
    lemma_position_from(rows, rows[j].app_id, rows[j].achievement_id, rows[j].source, 0);
}

} // verus!

//! The provider scanners: each reads one file of a game and gives the full
//! list of the game's achievements under its provider.

use crate::achievements::{
    Achievement, AchievementDatabase, AchievementRecord, position_of, ProviderTag, records,
    upserted,
};
use crate::error::EngineError;
use crate::ini::{ini_sections, IniSection, parse_ini, section_records, SectionRecord};
use crate::json::{document_of, member_from, view_of, JsonModel, JsonValue, parse};
use crate::key_match::{binding, Lexicon};
use crate::paths::{app_id_text, FilePath, id_text, PathRecord};
use crate::steam_achievements::{
    copy_opt, find_rate, get_optional_i64, get_required_text, GlobalRate, item_trees, opt_text,
    optional_i64, rate_of, RateRecord, rates_view, required_text, schema_view, SchemaEntry,
    SteamAchievementSchema,
};
use crate::text::chars_of;
use vstd::prelude::*;
use vstd::string::StringExecFns;

verus! {

// ---------------------------------------------------------------------------
// Writing scanned rows to the store
// ---------------------------------------------------------------------------
/// The table and the next id after the first `n` rows of a list were
/// written, one after the other; `None` where the ids ran out on the way.
pub open spec fn stored(
    rows: Seq<AchievementRecord>,
    next_id: int,
    list: Seq<AchievementRecord>,
    n: nat,
) -> Option<(Seq<AchievementRecord>, int)>
    decreases n,
{
    if n == 0 || n > list.len() {
        Some((rows, next_id))
    } else {
        match stored(rows, next_id, list, (n - 1) as nat) {
            Some((table, id)) => {
                let a = list[n - 1];
                if position_of(table, a.app_id, a.achievement_id, a.source) is Some {
                    Some((upserted(table, id, a), id))
                } else if id < i64::MAX {
                    Some((upserted(table, id, a), id + 1))
                } else {
                    None
                }
            },
            None => None,
        }
    }
}

/// How many of the first `n` rows are unlocked.
pub open spec fn unlocked_count(list: Seq<AchievementRecord>, n: nat) -> nat
    decreases n,
{
    if n == 0 || n > list.len() {
        0
    } else if list[n - 1].achieved {
        unlocked_count(list, (n - 1) as nat) + 1
    } else {
        unlocked_count(list, (n - 1) as nat)
    }
}

/// Whether every row of a list has an unlock time only if it is unlocked.
pub open spec fn rows_wf(list: Seq<AchievementRecord>) -> bool {
    forall|i: int| 0 <= i < list.len() ==> (#[trigger] list[i]).wf()
}

/// How many rows of a list are unlocked.
pub fn count_unlocked(list: &Vec<Achievement>) -> (count: usize)
    ensures
        count == unlocked_count(records(list@), list@.len()),
{
    let mut count: usize = 0;
    let mut i: usize = 0;
    while i < list.len()
        invariant
            i <= list@.len(),
            count == unlocked_count(records(list@), i as nat),
            count <= i,
        decreases list@.len() - i,
    {
        if list[i].achieved {
            count = count + 1;
        }
        i = i + 1;
    }
    count
}

/// Whether a table and its next id are what writing some of the rows of a
/// list, from the first on but not all of them, leaves of another table.
pub open spec fn partly_stored(
    rows: Seq<AchievementRecord>,
    next_id: int,
    list: Seq<AchievementRecord>,
    table: Seq<AchievementRecord>,
    id: int,
) -> bool {
    exists|k: nat| k < list.len() && #[trigger] stored(rows, next_id, list, k) == Some((table, id))
}

/// Writes the rows of a scan to the store, one after the other, and returns
/// how many of them are unlocked. Stops at the first row for which the store
/// has no id left; the rows before it stay written.
pub fn store_rows(db: &mut AchievementDatabase, list: &Vec<Achievement>) -> (r: Result<
    usize,
    EngineError,
>)
    requires
        old(db).wf(),
        rows_wf(records(list@)),
    ensures
        final(db).wf(),
        final(db).exclusions() == old(db).exclusions(),
        crate::laws::times_kept(old(db)@, final(db)@),
        match r {
            Ok(count) => stored(old(db)@, old(db).next_row_id(), records(list@), list@.len())
                == Some((final(db)@, final(db).next_row_id())) && count == unlocked_count(
                records(list@),
                list@.len(),
            ),
            Err(e) => e == EngineError::Storage && stored(
                old(db)@,
                old(db).next_row_id(),
                records(list@),
                list@.len(),
            ) is None && partly_stored(
                old(db)@,
                old(db).next_row_id(),
                records(list@),
                final(db)@,
                final(db).next_row_id(),
            ),
        },
{
    let mut i: usize = 0;
    while i < list.len()
        invariant
            i <= list@.len(),
            db.wf(),
            rows_wf(records(list@)),
            db.exclusions() == old(db).exclusions(),
            stored(old(db)@, old(db).next_row_id(), records(list@), i as nat) == Some(
                (db@, db.next_row_id()),
            ),
            crate::laws::times_kept(old(db)@, db@),
        decreases list@.len() - i,
    {
        assert(records(list@)[i as int] == list@[i as int]@);
        let ghost before = db@;
        match db.insert_or_update_achievement(&list[i]) {
            Ok(()) => {
                proof {
                    let a = list@[i as int]@;
                    if position_of(before, a.app_id, a.achievement_id, a.source) is Some {
                        crate::achievements::lemma_position_from(
                            before,
                            a.app_id,
                            a.achievement_id,
                            a.source,
                            0,
                        );
                    }
                }
            },
            Err(e) => {
                proof {
                    lemma_stored_fails(
                        old(db)@,
                        old(db).next_row_id(),
                        records(list@),
                        (i + 1) as nat,
                        list@.len(),
                    );
                }
                return Err(e);
            },
        }
        i = i + 1;
    }
    Ok(count_unlocked(list))
}

/// Once the ids have run out, writing more rows does not help.
pub proof fn lemma_stored_fails(
    rows: Seq<AchievementRecord>,
    next_id: int,
    list: Seq<AchievementRecord>,
    n: nat,
    m: nat,
)
    requires
        n <= m <= list.len(),
        stored(rows, next_id, list, n) is None,
    ensures
        stored(rows, next_id, list, m) is None,
    decreases m,
{
    if n < m {
        lemma_stored_fails(rows, next_id, list, n, (m - 1) as nat);
    }
}

// ---------------------------------------------------------------------------
// The emulator with the INI file
// ---------------------------------------------------------------------------
/// What the first `n` sections say of the schema entry `i`: the timestamp of
/// the last unlocked section that is bound to the entry; `None` where no
/// unlocked section is bound to it.
pub open spec fn bound_state(
    sections: Seq<SectionRecord>,
    schema: Seq<SchemaEntry>,
    i: int,
    n: nat,
) -> Option<Option<i64>>
    decreases n,
{
    if n == 0 || n > sections.len() {
        None
    } else if sections[n - 1].achieved && binding(sections[n - 1].name, schema) == Some(i) {
        Some(sections[n - 1].timestamp)
    } else {
        bound_state(sections, schema, i, (n - 1) as nat)
    }
}

/// The row of the schema entry `i` in a scan of the INI file.
pub open spec fn ini_row(
    app_id: u32,
    game_name: Seq<char>,
    schema: Seq<SchemaEntry>,
    sections: Seq<SectionRecord>,
    rates: Option<Seq<RateRecord>>,
    now: i64,
    i: int,
) -> AchievementRecord {
    let state = bound_state(sections, schema, i, sections.len());
    AchievementRecord {
        id: None,
        app_id,
        game_name,
        achievement_id: schema[i].name,
        display_name: schema[i].display_name,
        description: schema[i].description_text(),
        icon_url: None,
        icon_gray_url: None,
        hidden: false,
        achieved: state is Some,
        unlock_time: match state {
            Some(t) => t,
            None => None,
        },
        source: ProviderTag::EmulatorB,
        last_updated: now,
        global_unlock_percentage: rate_of(rates, schema[i].name),
    }
}

/// The rows of a scan of the INI file: one for each schema entry, in the
/// order of the schema.
pub open spec fn ini_rows(
    app_id: u32,
    game_name: Seq<char>,
    schema: Seq<SchemaEntry>,
    sections: Seq<SectionRecord>,
    rates: Option<Seq<RateRecord>>,
    now: i64,
) -> Seq<AchievementRecord> {
    Seq::new(schema.len(), |i: int| ini_row(app_id, game_name, schema, sections, rates, now, i))
}

/// The description of a schema entry, empty where it has none.
pub fn description_of(e: &SteamAchievementSchema) -> (r: String)
    ensures
        r@ == e@.description_text(),
{
    match &e.description {
        Some(d) => d.clone(),
        None => String::new(),
    }
}

/// The schema entry that each unlocked section is bound to.
fn bind_sections(sections: &Vec<IniSection>, schema: &Vec<SteamAchievementSchema>) -> (r: Vec<
    Option<usize>,
>)
    ensures
        r@.len() == sections@.len(),
        forall|k: int|
            0 <= k < r@.len() ==> match #[trigger] r@[k] {
                Some(i) => sections@[k].achieved && binding(sections@[k].name@, schema_view(schema@))
                    == Some(i as int),
                None => !sections@[k].achieved || binding(
                    sections@[k].name@,
                    schema_view(schema@),
                ) is None,
            },
{
    let lex = Lexicon::new();
    let mut out: Vec<Option<usize>> = Vec::new();
    let mut k: usize = 0;
    while k < sections.len()
        invariant
            k <= sections@.len(),
            lex.wf(),
            out@.len() == k,
            forall|j: int|
                0 <= j < k ==> match #[trigger] out@[j] {
                    Some(i) => sections@[j].achieved && binding(
                        sections@[j].name@,
                        schema_view(schema@),
                    ) == Some(i as int),
                    None => !sections@[j].achieved || binding(
                        sections@[j].name@,
                        schema_view(schema@),
                    ) is None,
                },
        decreases sections@.len() - k,
    {
        let bound = if sections[k].achieved {
            lex.bind(&chars_of(sections[k].name.as_str()), schema)
        } else {
            None
        };
        out.push(bound);
        k = k + 1;
    }
    out
}

/// Scans the INI file of a game against its schema: one row for each schema
/// entry, unlocked where an unlocked section is bound to the entry.
pub fn scan_onlinefix_rows(
    contents: &str,
    app_id: u32,
    game_name: &str,
    schema: &Vec<SteamAchievementSchema>,
    rates: Option<&Vec<GlobalRate>>,
    now: i64,
) -> (rows: Vec<Achievement>)
    ensures
        records(rows@) == ini_rows(
            app_id,
            game_name@,
            schema_view(schema@),
            ini_sections(contents@),
            rates_view(rates),
            now,
        ),
        rows_wf(records(rows@)),
        rows@.len() == schema@.len(),
{
    let sections = parse_ini(contents);
    let bound = bind_sections(&sections, schema);
    let ghost secs = section_records(sections@);
    let ghost entries = schema_view(schema@);
    let mut rows: Vec<Achievement> = Vec::new();
    let mut i: usize = 0;
    while i < schema.len()
        invariant
            i <= schema@.len(),
            secs == section_records(sections@),
            secs == ini_sections(contents@),
            entries == schema_view(schema@),
            bound@.len() == sections@.len(),
            forall|k: int|
                0 <= k < bound@.len() ==> match #[trigger] bound@[k] {
                    Some(i) => sections@[k].achieved && binding(sections@[k].name@, entries)
                        == Some(i as int),
                    None => !sections@[k].achieved || binding(sections@[k].name@, entries) is None,
                },
            rows@.len() == i,
            forall|j: int|
                0 <= j < i ==> (#[trigger] rows@[j])@ == ini_row(
                    app_id,
                    game_name@,
                    entries,
                    secs,
                    rates_view(rates),
                    now,
                    j,
                ),
        decreases schema@.len() - i,
    {
        let mut state: Option<Option<i64>> = None;
        let mut n: usize = sections.len();
        while n > 0 && state.is_none()
            invariant
                n <= sections@.len(),
                secs == section_records(sections@),
                bound@.len() == sections@.len(),
                forall|k: int|
                    0 <= k < bound@.len() ==> match #[trigger] bound@[k] {
                        Some(i) => sections@[k].achieved && binding(sections@[k].name@, entries)
                            == Some(i as int),
                        None => !sections@[k].achieved || binding(sections@[k].name@, entries)
                            is None,
                    },
                match state {
                    Some(t) => bound_state(secs, entries, i as int, secs.len()) == Some(t),
                    None => bound_state(secs, entries, i as int, secs.len()) == bound_state(
                        secs,
                        entries,
                        i as int,
                        n as nat,
                    ),
                },
            decreases n,
        {
            let hit = match bound[n - 1] {
                Some(b) => b == i,
                None => false,
            };
            if hit {
                state = Some(sections[n - 1].timestamp);
            }
            n = n - 1;
        }
        let e = &schema[i];
        let row = Achievement {
            id: None,
            app_id,
            game_name: game_name.to_owned(),
            achievement_id: e.name.clone(),
            display_name: e.display_name.clone(),
            description: description_of(e),
            icon_url: None,
            icon_gray_url: None,
            hidden: false,
            achieved: state.is_some(),
            unlock_time: match state {
                Some(t) => t,
                None => None,
            },
            source: ProviderTag::EmulatorB,
            last_updated: now,
            global_unlock_percentage: find_rate(rates, &e.name),
        };
        rows.push(row);
        i = i + 1;
    }
    rows
}

// ---------------------------------------------------------------------------
// The platform's cache
// ---------------------------------------------------------------------------
/// The three lists of the cache.
#[derive(Debug, Clone, Copy, PartialEq, Eq, Structural)]
pub enum CacheList {
    /// `vecHighlight`: known achievements, unlocked or not.
    Highlight,
    /// `vecUnachieved`: known locked achievements.
    Unachieved,
    /// `vecAchievedHidden`: unlocked hidden achievements.
    AchievedHidden,
}

/// What a list of the cache says of one achievement, as a mathematical value.
pub struct StatusRecord {
    pub key: Seq<char>,
    pub achieved: bool,
    pub unlock_time: Option<i64>,
}

/// What a list of the cache says of one achievement.
#[derive(Debug, Clone)]
pub struct CacheStatus {
    pub key: String,
    pub achieved: bool,
    pub unlock_time: Option<i64>,
}

impl View for CacheStatus {
    type V = StatusRecord;

    open spec fn view(&self) -> StatusRecord {
        StatusRecord { key: self.key@, achieved: self.achieved, unlock_time: self.unlock_time }
    }
}

/// The entries of a list, each by its view.
pub open spec fn status_records(list: Seq<CacheStatus>) -> Seq<StatusRecord> {
    Seq::new(list.len(), |i: int| list[i]@)
}

/// Whether an item of the cache's top-level array is the pair tagged
/// `achievements`.
pub open spec fn is_achievements_pair(item: JsonModel) -> bool {
    match item.items() {
        Some(inner) => inner.len() > 0 && inner[0].text() == Some("achievements"@),
        None => false,
    }
}

/// The first pair tagged `achievements` among `items[from..]`.
pub open spec fn achievements_pair(items: Seq<JsonModel>, from: int) -> Option<JsonModel>
    decreases items.len() - from,
{
    if from < 0 || from >= items.len() {
        None
    } else if is_achievements_pair(items[from]) {
        Some(items[from])
    } else {
        achievements_pair(items, from + 1)
    }
}

/// The `data` of the cache's achievements: the member `data` of the body of
/// the first pair tagged `achievements`.
pub open spec fn cache_data(doc: JsonModel) -> Option<JsonModel> {
    match doc.items() {
        Some(items) => match achievements_pair(items, 0) {
            Some(pair) => if pair.items().unwrap().len() > 1 {
                pair.items().unwrap()[1].member("data"@)
            } else {
                None
            },
            None => None,
        },
        None => None,
    }
}

/// The items of one list of the cache; none where the list is missing.
pub open spec fn cache_list(data: JsonModel, list: CacheList) -> Seq<JsonModel> {
    let name = match list {
        CacheList::Highlight => "vecHighlight"@,
        CacheList::Unachieved => "vecUnachieved"@,
        CacheList::AchievedHidden => "vecAchievedHidden"@,
    };
    match data.member(name) {
        Some(v) => match v.items() {
            Some(items) => items,
            None => Seq::empty(),
        },
        None => Seq::empty(),
    }
}

/// The unlock time that an item gives: its `rtUnlocked` where that is above
/// zero.
pub open spec fn item_time(item: JsonModel, key: Seq<char>) -> Option<i64> {
    match item.member(key) {
        Some(v) => match v.integer() {
            Some(t) => if t > 0 {
                Some(t)
            } else {
                None
            },
            None => None,
        },
        None => None,
    }
}

/// The flag that an item gives under a key, `default` where it gives none.
pub open spec fn item_flag(item: JsonModel, key: Seq<char>, default: bool) -> bool {
    match item.member(key) {
        Some(v) => match v.boolean() {
            Some(b) => b,
            None => default,
        },
        None => default,
    }
}

/// The text that an item gives under a key.
pub open spec fn item_text(item: JsonModel, key: Seq<char>) -> Option<Seq<char>> {
    match item.member(key) {
        Some(v) => v.text(),
        None => None,
    }
}

/// What an item of a list says: nothing without a `strID`; locked in the
/// list of the locked; else `bAchieved`, which a missing flag leaves false in
/// the highlights and true among the unlocked hidden. A time is read for an
/// unlocked item only.
pub open spec fn item_status(item: JsonModel, list: CacheList) -> Option<StatusRecord> {
    match item_text(item, "strID"@) {
        Some(key) => {
            let achieved = match list {
                CacheList::Highlight => item_flag(item, "bAchieved"@, false),
                CacheList::Unachieved => false,
                CacheList::AchievedHidden => item_flag(item, "bAchieved"@, true),
            };
            Some(
                StatusRecord {
                    key,
                    achieved,
                    unlock_time: if achieved {
                        item_time(item, "rtUnlocked"@)
                    } else {
                        None
                    },
                },
            )
        },
        None => None,
    }
}

/// What the first `n` entries say of a key: the last of them with the key.
pub open spec fn status_known(log: Seq<StatusRecord>, key: Seq<char>, n: nat) -> Option<
    StatusRecord,
>
    decreases n,
{
    if n == 0 || n > log.len() {
        None
    } else if log[n - 1].key == key {
        Some(log[n - 1])
    } else {
        status_known(log, key, (n - 1) as nat)
    }
}

/// The entries with one more status taken in: an unlocked status always
/// counts, a locked one only for a key not yet heard of.
pub open spec fn merged_status(log: Seq<StatusRecord>, status: StatusRecord) -> Seq<StatusRecord> {
    if status.achieved || status_known(log, status.key, log.len()) is None {
        log.push(status)
    } else {
        log
    }
}

/// The entries with the first `n` items of a list taken in.
pub open spec fn merged_list(log: Seq<StatusRecord>, items: Seq<JsonModel>, list: CacheList, n: nat)
    -> Seq<StatusRecord>
    decreases n,
{
    if n == 0 || n > items.len() {
        log
    } else {
        let before = merged_list(log, items, list, (n - 1) as nat);
        match item_status(items[n - 1], list) {
            Some(status) => merged_status(before, status),
            None => before,
        }
    }
}

/// Everything that the cache says, its three lists taken in one after the
/// other: highlights, locked, unlocked hidden.
pub open spec fn cache_log(data: JsonModel) -> Seq<StatusRecord> {
    let highlight = cache_list(data, CacheList::Highlight);
    let unachieved = cache_list(data, CacheList::Unachieved);
    let hidden = cache_list(data, CacheList::AchievedHidden);
    let first = merged_list(Seq::empty(), highlight, CacheList::Highlight, highlight.len());
    let second = merged_list(first, unachieved, CacheList::Unachieved, unachieved.len());
    merged_list(second, hidden, CacheList::AchievedHidden, hidden.len())
}

/// The row of the schema entry `i` in a scan of the platform's cache.
pub open spec fn cache_row(
    app_id: u32,
    game_name: Seq<char>,
    schema: Seq<SchemaEntry>,
    log: Seq<StatusRecord>,
    rates: Option<Seq<RateRecord>>,
    now: i64,
    i: int,
) -> AchievementRecord {
    let state = status_known(log, schema[i].name, log.len());
    AchievementRecord {
        id: None,
        app_id,
        game_name,
        achievement_id: schema[i].name,
        display_name: schema[i].display_name,
        description: schema[i].description_text(),
        icon_url: schema[i].icon,
        icon_gray_url: schema[i].icon_gray,
        hidden: schema[i].hidden == Some(1u32),
        achieved: match state {
            Some(s) => s.achieved,
            None => false,
        },
        unlock_time: match state {
            Some(s) => if s.achieved {
                s.unlock_time
            } else {
                None
            },
            None => None,
        },
        source: ProviderTag::PlatformCache,
        last_updated: now,
        global_unlock_percentage: rate_of(rates, schema[i].name),
    }
}

/// The rows of a scan of the platform's cache: one for each schema entry.
pub open spec fn cache_rows(
    app_id: u32,
    game_name: Seq<char>,
    schema: Seq<SchemaEntry>,
    log: Seq<StatusRecord>,
    rates: Option<Seq<RateRecord>>,
    now: i64,
) -> Seq<AchievementRecord> {
    Seq::new(schema.len(), |i: int| cache_row(app_id, game_name, schema, log, rates, now, i))
}

/// What a scan of the platform's cache gives for a document: `NotFound`
/// without a schema, `Parse` where the document has no achievement data,
/// else the rows.
pub open spec fn cache_scan(
    doc: JsonModel,
    app_id: u32,
    game_name: Seq<char>,
    schema: Seq<SchemaEntry>,
    rates: Option<Seq<RateRecord>>,
    now: i64,
) -> Result<Seq<AchievementRecord>, EngineError> {
    if schema.len() == 0 {
        Err(EngineError::NotFound)
    } else {
        match cache_data(doc) {
            Some(data) => Ok(cache_rows(app_id, game_name, schema, cache_log(data), rates, now)),
            None => Err(EngineError::Parse),
        }
    }
}

/// The views of a list of documents.
pub open spec fn trees(items: Seq<JsonValue>) -> Seq<JsonModel> {
    Seq::new(items.len(), |i: int| items[i]@)
}

/// The `data` of the cache's achievements.
pub fn find_cache_data<'a>(doc: &'a JsonValue) -> (r: Option<&'a JsonValue>)
    ensures
        crate::json::view_of(r) == cache_data(doc@),
{
    let items = match doc.as_array() {
        Some(items) => items,
        None => {
            return None;
        },
    };
    let mut i: usize = 0;
    while i < items.len()
        invariant
            i <= items@.len(),
            doc@.items() == Some(trees(items@)),
            achievements_pair(trees(items@), 0) == achievements_pair(trees(items@), i as int),
        decreases items@.len() - i,
    {
        match items[i].as_array() {
            Some(inner) => {
                let tagged = if inner.len() > 0 {
                    match inner[0].as_str() {
                        Some(tag) => *tag == "achievements".to_owned(),
                        None => false,
                    }
                } else {
                    false
                };
                if tagged {
                    if inner.len() > 1 {
                        return inner[1].get("data");
                    } else {
                        return None;
                    }
                }
            },
            None => {},
        }
        i = i + 1;
    }
    None
}

/// What an item of a list says.
pub fn read_status(item: &JsonValue, list: CacheList) -> (r: Option<CacheStatus>)
    ensures
        match r {
            Some(s) => item_status(item@, list) == Some(s@),
            None => item_status(item@, list) is None,
        },
{
    let key = match item.get("strID") {
        Some(v) => match v.as_str() {
            Some(s) => s.clone(),
            None => {
                return None;
            },
        },
        None => {
            return None;
        },
    };
    let flag = match item.get("bAchieved") {
        Some(v) => v.as_bool(),
        None => None,
    };
    let achieved = match list {
        CacheList::Highlight => match flag {
            Some(b) => b,
            None => false,
        },
        CacheList::Unachieved => false,
        CacheList::AchievedHidden => match flag {
            Some(b) => b,
            None => true,
        },
    };
    let time = match item.get("rtUnlocked") {
        Some(v) => match v.as_i64() {
            Some(t) => if t > 0 {
                Some(t)
            } else {
                None
            },
            None => None,
        },
        None => None,
    };
    Some(
        CacheStatus {
            key,
            achieved,
            unlock_time: if achieved {
                time
            } else {
                None
            },
        },
    )
}

/// What the entries say of a key.
pub fn find_status(log: &Vec<CacheStatus>, key: &String) -> (r: Option<usize>)
    ensures
        match r {
            Some(i) => i < log@.len() && status_known(status_records(log@), key@, log@.len())
                == Some(log@[i as int]@),
            None => status_known(status_records(log@), key@, log@.len()) is None,
        },
{
    let mut n: usize = log.len();
    while n > 0
        invariant
            n <= log@.len(),
            status_known(status_records(log@), key@, log@.len()) == status_known(
                status_records(log@),
                key@,
                n as nat,
            ),
        decreases n,
    {
        if log[n - 1].key == *key {
            return Some(n - 1);
        }
        n = n - 1;
    }
    None
}

/// Takes one list of the cache into the entries.
pub fn merge_list(log: &mut Vec<CacheStatus>, data: &JsonValue, list: CacheList)
    ensures
        status_records(final(log)@) == merged_list(
            status_records(old(log)@),
            cache_list(data@, list),
            list,
            cache_list(data@, list).len(),
        ),
{
    let name = match list {
        CacheList::Highlight => "vecHighlight",
        CacheList::Unachieved => "vecUnachieved",
        CacheList::AchievedHidden => "vecAchievedHidden",
    };
    let items = match data.get(name) {
        Some(v) => match v.as_array() {
            Some(items) => items,
            None => {
                return ;
            },
        },
        None => {
            return ;
        },
    };
    let mut i: usize = 0;
    while i < items.len()
        invariant
            i <= items@.len(),
            status_records(log@) == merged_list(
                status_records(old(log)@),
                trees(items@),
                list,
                i as nat,
            ),
        decreases items@.len() - i,
    {
        match read_status(&items[i], list) {
            Some(status) => {
                let take = status.achieved || find_status(log, &status.key).is_none();
                if take {
                    log.push(status);
                }
            },
            None => {},
        }
        i = i + 1;
    }
}

/// Scans a document of the platform's cache against the schema.
pub fn scan_cache_document(
    doc: &JsonValue,
    app_id: u32,
    game_name: &str,
    schema: &Vec<SteamAchievementSchema>,
    rates: Option<&Vec<GlobalRate>>,
    now: i64,
) -> (r: Result<Vec<Achievement>, EngineError>)
    ensures
        match r {
            Ok(rows) => cache_scan(
                doc@,
                app_id,
                game_name@,
                schema_view(schema@),
                rates_view(rates),
                now,
            ) == Ok::<Seq<AchievementRecord>, EngineError>(records(rows@)) && rows_wf(
                records(rows@),
            ),
            Err(e) => cache_scan(
                doc@,
                app_id,
                game_name@,
                schema_view(schema@),
                rates_view(rates),
                now,
            ) == Err::<Seq<AchievementRecord>, EngineError>(e),
        },
{
    if schema.len() == 0 {
        return Err(EngineError::NotFound);
    }
    let data = match find_cache_data(doc) {
        Some(data) => data,
        None => {
            return Err(EngineError::Parse);
        },
    };
    let mut log: Vec<CacheStatus> = Vec::new();
    assert(status_records(log@) == Seq::<StatusRecord>::empty());
    merge_list(&mut log, data, CacheList::Highlight);
    merge_list(&mut log, data, CacheList::Unachieved);
    merge_list(&mut log, data, CacheList::AchievedHidden);
    let ghost entries = schema_view(schema@);
    let ghost said = status_records(log@);
    let mut rows: Vec<Achievement> = Vec::new();
    let mut i: usize = 0;
    while i < schema.len()
        invariant
            i <= schema@.len(),
            entries == schema_view(schema@),
            said == status_records(log@),
            rows@.len() == i,
            forall|j: int|
                0 <= j < i ==> (#[trigger] rows@[j])@ == cache_row(
                    app_id,
                    game_name@,
                    entries,
                    said,
                    rates_view(rates),
                    now,
                    j,
                ),
        decreases schema@.len() - i,
    {
        let e = &schema[i];
        let state = find_status(&log, &e.name);
        let achieved = match state {
            Some(k) => log[k].achieved,
            None => false,
        };
        let unlock_time = match state {
            Some(k) => if log[k].achieved {
                log[k].unlock_time
            } else {
                None
            },
            None => None,
        };
        let hidden = match e.hidden {
            Some(h) => h == 1,
            None => false,
        };
        rows.push(
            Achievement {
                id: None,
                app_id,
                game_name: game_name.to_owned(),
                achievement_id: e.name.clone(),
                display_name: e.display_name.clone(),
                description: description_of(e),
                icon_url: copy_opt(&e.icon),
                icon_gray_url: copy_opt(&e.icon_gray),
                hidden,
                achieved,
                unlock_time,
                source: ProviderTag::PlatformCache,
                last_updated: now,
                global_unlock_percentage: find_rate(rates, &e.name),
            },
        );
        i = i + 1;
    }
    assert(records(rows@) == cache_rows(app_id, game_name@, entries, said, rates_view(rates), now));
    Ok(rows)
}

// ---------------------------------------------------------------------------
// The emulator with the JSON file
// ---------------------------------------------------------------------------
/// The entry that the first `n` entries of a schema hold for a key: the last
/// of them with the key.
pub open spec fn schema_named(schema: Seq<SchemaEntry>, key: Seq<char>, n: nat) -> Option<
    SchemaEntry,
>
    decreases n,
{
    if n == 0 || n > schema.len() {
        None
    } else if schema[n - 1].name == key {
        Some(schema[n - 1])
    } else {
        schema_named(schema, key, (n - 1) as nat)
    }
}

/// One achievement of the emulator's file, as a mathematical value.
pub struct GoldbergRecord {
    pub earned: bool,
    pub earned_time: Option<i64>,
    pub name: Seq<char>,
    pub description: Option<Seq<char>>,
}

/// One achievement of the emulator's file: whether it is earned, since when,
/// and how the schema names and describes it.
#[derive(Debug, Clone)]
pub struct GoldbergAchievement {
    pub earned: bool,
    pub earned_time: Option<i64>,
    pub name: String,
    pub description: Option<String>,
}

impl View for GoldbergAchievement {
    type V = GoldbergRecord;

    open spec fn view(&self) -> GoldbergRecord {
        GoldbergRecord {
            earned: self.earned,
            earned_time: self.earned_time,
            name: self.name@,
            description: opt_text(self.description),
        }
    }
}

/// What the emulator's file says of one achievement, given the schema entry
/// of its key and its member of the file, as far as there is one: earned
/// where the member says `earned`, with its `earned_time` where that is above
/// zero, and locked without a member; named and described by the schema
/// entry, by the key itself without one.
pub open spec fn goldberg_entry(entry: Option<SchemaEntry>, key: Seq<char>, data: Option<JsonModel>)
    -> GoldbergRecord {
    let earned = match data {
        Some(d) => item_flag(d, "earned"@, false),
        None => false,
    };
    GoldbergRecord {
        earned,
        earned_time: match data {
            Some(d) => if earned {
                item_time(d, "earned_time"@)
            } else {
                None
            },
            None => None,
        },
        name: match entry {
            Some(e) => e.display_name,
            None => key,
        },
        description: match entry {
            Some(e) => Some(e.description_text()),
            None => None,
        },
    }
}

/// The row of one achievement of the emulator's file.
pub open spec fn goldberg_row(
    app_id: u32,
    game_name: Seq<char>,
    key: Seq<char>,
    entry: GoldbergRecord,
    rates: Option<Seq<RateRecord>>,
    now: i64,
) -> AchievementRecord {
    AchievementRecord {
        id: None,
        app_id,
        game_name,
        achievement_id: key,
        display_name: entry.name,
        description: match entry.description {
            Some(d) => d,
            None => Seq::empty(),
        },
        icon_url: None,
        icon_gray_url: None,
        hidden: false,
        achieved: entry.earned,
        unlock_time: entry.earned_time,
        source: ProviderTag::EmulatorA,
        last_updated: now,
        global_unlock_percentage: rate_of(rates, key),
    }
}

/// The rows that a scan of the emulator's file gives for the schema: one for
/// each entry, in the order of the schema, with the state that the file's
/// member of the entry's key gives; locked where the file has no such member.
pub open spec fn goldberg_schema_rows(
    app_id: u32,
    game_name: Seq<char>,
    schema: Seq<SchemaEntry>,
    members: Seq<(Seq<char>, JsonModel)>,
    rates: Option<Seq<RateRecord>>,
    now: i64,
) -> Seq<AchievementRecord> {
    Seq::new(
        schema.len(),
        |i: int|
            goldberg_row(
                app_id,
                game_name,
                schema[i].name,
                goldberg_entry(
                    Some(schema[i]),
                    schema[i].name,
                    member_from(members, schema[i].name, 0),
                ),
                rates,
                now,
            ),
    )
}

/// Whether the schema has no entry for the key of a member.
pub open spec fn is_stray(schema: Seq<SchemaEntry>, member: (Seq<char>, JsonModel)) -> bool {
    schema_named(schema, member.0, schema.len()) is None
}

/// The rows of those among the first `n` members of the emulator's file
/// whose key the schema lacks, in the order of the members: each keeps its
/// key as its name.
pub open spec fn goldberg_stray_rows(
    app_id: u32,
    game_name: Seq<char>,
    schema: Seq<SchemaEntry>,
    members: Seq<(Seq<char>, JsonModel)>,
    rates: Option<Seq<RateRecord>>,
    now: i64,
    n: nat,
) -> Seq<AchievementRecord>
    decreases n,
{
    if n == 0 || n > members.len() {
        Seq::empty()
    } else {
        let before = goldberg_stray_rows(app_id, game_name, schema, members, rates, now, (n - 1) as nat);
        if is_stray(schema, members[n - 1]) {
            before.push(
                goldberg_row(
                    app_id,
                    game_name,
                    members[n - 1].0,
                    goldberg_entry(None, members[n - 1].0, Some(members[n - 1].1)),
                    rates,
                    now,
                ),
            )
        } else {
            before
        }
    }
}

/// The rows of a scan of the emulator's file: one for each schema entry,
/// then one for each member whose key the schema lacks.
pub open spec fn goldberg_rows(
    app_id: u32,
    game_name: Seq<char>,
    schema: Seq<SchemaEntry>,
    members: Seq<(Seq<char>, JsonModel)>,
    rates: Option<Seq<RateRecord>>,
    now: i64,
) -> Seq<AchievementRecord> {
    goldberg_schema_rows(app_id, game_name, schema, members, rates, now) + goldberg_stray_rows(
        app_id,
        game_name,
        schema,
        members,
        rates,
        now,
        members.len(),
    )
}

/// What a scan of the emulator's file gives for a document: `Parse` where
/// the document is no object, else the rows.
pub open spec fn goldberg_scan(
    doc: JsonModel,
    app_id: u32,
    game_name: Seq<char>,
    schema: Seq<SchemaEntry>,
    rates: Option<Seq<RateRecord>>,
    now: i64,
) -> Result<Seq<AchievementRecord>, EngineError> {
    match doc.members() {
        Some(members) => Ok(goldberg_rows(app_id, game_name, schema, members, rates, now)),
        None => Err(EngineError::Parse),
    }
}

/// The entry that a schema holds for a key.
pub fn find_schema_entry(schema: &Vec<SteamAchievementSchema>, key: &String) -> (r: Option<usize>)
    ensures
        match r {
            Some(i) => i < schema@.len() && schema_named(schema_view(schema@), key@, schema@.len())
                == Some(schema@[i as int]@),
            None => schema_named(schema_view(schema@), key@, schema@.len()) is None,
        },
{
    let mut n: usize = schema.len();
    while n > 0
        invariant
            n <= schema@.len(),
            schema_named(schema_view(schema@), key@, schema@.len()) == schema_named(
                schema_view(schema@),
                key@,
                n as nat,
            ),
        decreases n,
    {
        if schema[n - 1].name == *key {
            return Some(n - 1);
        }
        n = n - 1;
    }
    None
}

/// The schema entry of an optional reference, as a mathematical value.
pub open spec fn entry_view(entry: Option<&SteamAchievementSchema>) -> Option<SchemaEntry> {
    match entry {
        Some(e) => Some(e@),
        None => None,
    }
}

/// What the emulator's file says of one achievement.
pub fn read_goldberg_entry(
    entry: Option<&SteamAchievementSchema>,
    key: &String,
    data: Option<&JsonValue>,
) -> (r: GoldbergAchievement)
    ensures
        r@ == goldberg_entry(entry_view(entry), key@, view_of(data)),
{
    let earned = match data {
        Some(d) => match d.get("earned") {
            Some(v) => match v.as_bool() {
                Some(b) => b,
                None => false,
            },
            None => false,
        },
        None => false,
    };
    let time = match data {
        Some(d) => match d.get("earned_time") {
            Some(v) => match v.as_i64() {
                Some(t) => if t > 0 {
                    Some(t)
                } else {
                    None
                },
                None => None,
            },
            None => None,
        },
        None => None,
    };
    GoldbergAchievement {
        earned,
        earned_time: if earned {
            time
        } else {
            None
        },
        name: match entry {
            Some(e) => e.display_name.clone(),
            None => key.clone(),
        },
        description: match entry {
            Some(e) => Some(description_of(e)),
            None => None,
        },
    }
}

/// The row of one achievement of the emulator's file.
fn goldberg_row_of(
    app_id: u32,
    game_name: &str,
    key: &String,
    entry: GoldbergAchievement,
    rates: Option<&Vec<GlobalRate>>,
    now: i64,
) -> (r: Achievement)
    ensures
        r@ == goldberg_row(app_id, game_name@, key@, entry@, rates_view(rates), now),
{
    Achievement {
        id: None,
        app_id,
        game_name: game_name.to_owned(),
        achievement_id: key.clone(),
        display_name: entry.name,
        description: match entry.description {
            Some(d) => d,
            None => String::new(),
        },
        icon_url: None,
        icon_gray_url: None,
        hidden: false,
        achieved: entry.earned,
        unlock_time: entry.earned_time,
        source: ProviderTag::EmulatorA,
        last_updated: now,
        global_unlock_percentage: find_rate(rates, key),
    }
}

/// The members of a list, each by its view.
pub open spec fn member_trees(members: Seq<(String, JsonValue)>) -> Seq<(Seq<char>, JsonModel)> {
    Seq::new(members.len(), |i: int| (members[i].0@, members[i].1@))
}

/// Scans a document of the emulator's file against the schema.
pub fn scan_goldberg_document(
    doc: &JsonValue,
    app_id: u32,
    game_name: &str,
    schema: &Vec<SteamAchievementSchema>,
    rates: Option<&Vec<GlobalRate>>,
    now: i64,
) -> (r: Result<Vec<Achievement>, EngineError>)
    ensures
        match r {
            Ok(rows) => goldberg_scan(
                doc@,
                app_id,
                game_name@,
                schema_view(schema@),
                rates_view(rates),
                now,
            ) == Ok::<Seq<AchievementRecord>, EngineError>(records(rows@)) && rows_wf(
                records(rows@),
            ),
            Err(e) => goldberg_scan(
                doc@,
                app_id,
                game_name@,
                schema_view(schema@),
                rates_view(rates),
                now,
            ) == Err::<Seq<AchievementRecord>, EngineError>(e),
        },
{
    let members = match doc.as_object() {
        Some(members) => members,
        None => {
            return Err(EngineError::Parse);
        },
    };
    let ghost entries = schema_view(schema@);
    let ghost ms = member_trees(members@);
    let mut rows: Vec<Achievement> = Vec::new();
    let mut i: usize = 0;
    while i < schema.len()
        invariant
            i <= schema@.len(),
            entries == schema_view(schema@),
            doc@.members() == Some(ms),
            rows@.len() == i,
            rows_wf(records(rows@)),
            forall|j: int|
                0 <= j < i ==> (#[trigger] rows@[j])@ == goldberg_schema_rows(
                    app_id,
                    game_name@,
                    entries,
                    ms,
                    rates_view(rates),
                    now,
                )[j],
        decreases schema@.len() - i,
    {
        let e = &schema[i];
        let data = doc.get(e.name.as_str());
        let entry = read_goldberg_entry(Some(e), &e.name, data);
        rows.push(goldberg_row_of(app_id, game_name, &e.name, entry, rates, now));
        i = i + 1;
    }
    let ghost first = goldberg_schema_rows(app_id, game_name@, entries, ms, rates_view(rates), now);
    assert(records(rows@) == first);
    let mut k: usize = 0;
    while k < members.len()
        invariant
            k <= members@.len(),
            entries == schema_view(schema@),
            ms == member_trees(members@),
            rows_wf(records(rows@)),
            records(rows@) == first + goldberg_stray_rows(
                app_id,
                game_name@,
                entries,
                ms,
                rates_view(rates),
                now,
                k as nat,
            ),
        decreases members@.len() - k,
    {
        let key = &members[k].0;
        let ghost before = records(rows@);
        if find_schema_entry(schema, key).is_none() {
            let entry = read_goldberg_entry(None, key, Some(&members[k].1));
            rows.push(goldberg_row_of(app_id, game_name, key, entry, rates, now));
            assert(records(rows@) == before.push(rows@[rows@.len() - 1]@));
        }
        k = k + 1;
        assert(records(rows@) == first + goldberg_stray_rows(
            app_id,
            game_name@,
            entries,
            ms,
            rates_view(rates),
            now,
            k as nat,
        ));
    }
    Ok(rows)
}

// ---------------------------------------------------------------------------
// The scanner
// ---------------------------------------------------------------------------
/// What a look at the platform's `userdata` directory found, as a
/// mathematical value.
pub struct ProbeRecord {
    pub exists: bool,
    pub configured_is_dir: bool,
    pub read_error: Option<Seq<char>>,
    pub directories: Seq<Seq<char>>,
}

/// What a look at the platform's `userdata` directory found: whether it
/// exists; whether the configured user has a directory there; the error of
/// reading it, if it could not be read; and the names of its directories in
/// the order in which they were read.
#[derive(Debug, Clone)]
pub struct UserdataProbe {
    pub exists: bool,
    pub configured_is_dir: bool,
    pub read_error: Option<String>,
    pub directories: Vec<String>,
}

impl View for UserdataProbe {
    type V = ProbeRecord;

    open spec fn view(&self) -> ProbeRecord {
        ProbeRecord {
            exists: self.exists,
            configured_is_dir: self.configured_is_dir,
            read_error: opt_text(self.read_error),
            directories: crate::paths::names(self.directories@),
        }
    }
}

/// The first directory among `dirs[from..]` that may be a user's: any but
/// `0` and `ac`.
pub open spec fn first_user(dirs: Seq<Seq<char>>, from: int) -> Option<Seq<char>>
    decreases dirs.len() - from,
{
    if from < 0 || from >= dirs.len() {
        None
    } else if dirs[from] != "0"@ && dirs[from] != "ac"@ {
        Some(dirs[from])
    } else {
        first_user(dirs, from + 1)
    }
}

/// The user whose data the scanner reads, or why there is none: the
/// configured user where one is configured, else the first user found.
pub open spec fn chosen_user(user_id: Option<Seq<char>>, probe: ProbeRecord) -> Result<
    Seq<char>,
    Seq<char>,
> {
    if !probe.exists {
        Err("Steam userdata folder not found"@)
    } else {
        match user_id {
            Some(id) => if probe.configured_is_dir {
                Ok(id)
            } else {
                Err("Steam user ID '"@ + id + "' not found"@)
            },
            None => match probe.read_error {
                Some(e) => Err("Failed to read userdata: "@ + e),
                None => match first_user(probe.directories, 0) {
                    Some(d) => Ok(d),
                    None => Err("No Steam user found"@),
                },
            },
        }
    }
}

/// The scanner of a platform installation.
pub struct AchievementScanner {
    steam_path: FilePath,
    steam_userdata_path: Option<FilePath>,
}

impl AchievementScanner {
    /// The directory of the installation.
    pub closed spec fn root(&self) -> PathRecord {
        self.steam_path@
    }

    /// The directory of the user's data.
    pub closed spec fn userdata(&self) -> Option<PathRecord> {
        match self.steam_userdata_path {
            Some(p) => Some(p@),
            None => None,
        }
    }

    /// A scanner for the installation at `steam_path`, reading the data of
    /// the configured user, or of the first user found where none is
    /// configured.
    pub fn new(steam_path: FilePath, user_id: Option<String>, probe: &UserdataProbe) -> (r: Result<
        AchievementScanner,
        String,
    >)
        ensures
            match r {
                Ok(scanner) => chosen_user(opt_text(user_id), probe@) matches Ok(user)
                    && scanner.root() == steam_path@ && scanner.userdata() == Some(
                    steam_path@.join("userdata"@).join(user),
                ),
                Err(e) => chosen_user(opt_text(user_id), probe@) == Err::<Seq<char>, Seq<char>>(e@),
            },
    {
        if !probe.exists {
            return Err("Steam userdata folder not found".to_owned());
        }
        let user = match user_id {
            Some(id) => {
                if probe.configured_is_dir {
                    id
                } else {
                    let message = String::from_str("Steam user ID '").concat(id.as_str()).concat(
                        "' not found",
                    );
                    return Err(message);
                }
            },
            None => {
                match &probe.read_error {
                    Some(e) => {
                        return Err(String::from_str("Failed to read userdata: ").concat(e.as_str()));
                    },
                    None => {},
                }
                let zero = "0".to_owned();
                let ac = "ac".to_owned();
                let mut i: usize = 0;
                let mut found: Option<String> = None;
                while i < probe.directories.len() && found.is_none()
                    invariant
                        i <= probe.directories@.len(),
                        zero@ == "0"@,
                        ac@ == "ac"@,
                        match found {
                            Some(d) => first_user(probe@.directories, 0) == Some(d@),
                            None => first_user(probe@.directories, 0) == first_user(
                                probe@.directories,
                                i as int,
                            ),
                        },
                    decreases probe.directories@.len() - i,
                {
                    let d = &probe.directories[i];
                    if *d != zero && *d != ac {
                        found = Some(d.clone());
                    }
                    i = i + 1;
                }
                match found {
                    Some(d) => d,
                    None => {
                        return Err("No Steam user found".to_owned());
                    },
                }
            },
        };
        let userdata = steam_path.join("userdata").join(user.as_str());
        Ok(AchievementScanner { steam_path, steam_userdata_path: Some(userdata) })
    }

    /// The file of the platform's cache for a game.
    pub fn librarycache_path(&self, app_id: u32) -> (r: Option<FilePath>)
        ensures
            match r {
                Some(p) => self.userdata() matches Some(dir) && p@ == dir.join("config"@).join(
                    "librarycache"@,
                ).join(id_text(app_id) + ".json"@),
                None => self.userdata() is None,
            },
    {
        match &self.steam_userdata_path {
            Some(dir) => {
                let file = app_id_text(app_id).concat(".json");
                Some(dir.join("config").join("librarycache").join(file.as_str()))
            },
            None => None,
        }
    }
}

/// What a scan leaves in the store and returns: the error of the scan; else
/// the table with the rows written, the next id, and the number of unlocked
/// rows; `Storage` where the ids ran out.
pub open spec fn committed(
    rows: Seq<AchievementRecord>,
    next_id: int,
    scan: Result<Seq<AchievementRecord>, EngineError>,
) -> Result<(Seq<AchievementRecord>, int, nat), EngineError> {
    match scan {
        Ok(list) => match stored(rows, next_id, list, list.len()) {
            Some((table, id)) => Ok((table, id, unlocked_count(list, list.len()))),
            None => Err(EngineError::Storage),
        },
        Err(e) => Err(e),
    }
}

/// What a scan that fails leaves in the store: the table and the next id as
/// they were, where the scan itself failed; the rows written before the ids
/// ran out, where it gave rows.
pub open spec fn left_by_failure(
    rows: Seq<AchievementRecord>,
    next_id: int,
    scan: Result<Seq<AchievementRecord>, EngineError>,
    table: Seq<AchievementRecord>,
    id: int,
) -> bool {
    match scan {
        Ok(list) => partly_stored(rows, next_id, list, table, id),
        Err(_) => table == rows && id == next_id,
    }
}

/// What a scan of the platform's cache gives for a text: `Parse` where the
/// text is no JSON document, else what the scan gives for the document.
pub open spec fn cache_scan_text(
    text: Seq<char>,
    app_id: u32,
    game_name: Seq<char>,
    schema: Seq<SchemaEntry>,
    rates: Option<Seq<RateRecord>>,
    now: i64,
) -> Result<Seq<AchievementRecord>, EngineError> {
    match document_of(text) {
        Some(doc) => cache_scan(doc, app_id, game_name, schema, rates, now),
        None => Err(EngineError::Parse),
    }
}

/// What a scan of the emulator's JSON file gives for a text: `Parse` where
/// the text is no JSON document, else what the scan gives for the document.
pub open spec fn goldberg_scan_text(
    text: Seq<char>,
    app_id: u32,
    game_name: Seq<char>,
    schema: Seq<SchemaEntry>,
    rates: Option<Seq<RateRecord>>,
    now: i64,
) -> Result<Seq<AchievementRecord>, EngineError> {
    match document_of(text) {
        Some(doc) => goldberg_scan(doc, app_id, game_name, schema, rates, now),
        None => Err(EngineError::Parse),
    }
}

impl AchievementScanner {
    /// Scans the platform's cache of a game and writes its rows to the
    /// store. Returns how many achievements are unlocked.
    pub fn scan_steam_achievements(
        &self,
        db: &mut AchievementDatabase,
        app_id: u32,
        game_name: &str,
        contents: &str,
        schema: &Vec<SteamAchievementSchema>,
        rates: Option<&Vec<GlobalRate>>,
        now: i64,
    ) -> (r: Result<usize, EngineError>)
        requires
            old(db).wf(),
        ensures
            final(db).wf(),
            final(db).exclusions() == old(db).exclusions(),
            crate::laws::times_kept(old(db)@, final(db)@),
            match r {
                Ok(count) => committed(
                    old(db)@,
                    old(db).next_row_id(),
                    cache_scan_text(
                        contents@,
                        app_id,
                        game_name@,
                        schema_view(schema@),
                        rates_view(rates),
                        now,
                    ),
                ) == Ok::<(Seq<AchievementRecord>, int, nat), EngineError>(
                    (final(db)@, final(db).next_row_id(), count as nat),
                ),
                Err(e) => committed(
                    old(db)@,
                    old(db).next_row_id(),
                    cache_scan_text(
                        contents@,
                        app_id,
                        game_name@,
                        schema_view(schema@),
                        rates_view(rates),
                        now,
                    ),
                ) == Err::<(Seq<AchievementRecord>, int, nat), EngineError>(e),
            },
            r is Err ==> left_by_failure(
                old(db)@,
                old(db).next_row_id(),
                cache_scan_text(
                    contents@,
                    app_id,
                    game_name@,
                    schema_view(schema@),
                    rates_view(rates),
                    now,
                ),
                final(db)@,
                final(db).next_row_id(),
            ),
            r matches Err(e) && e != EngineError::Storage ==> final(db)@ == old(db)@
                && final(db).next_row_id() == old(db).next_row_id(),
    {
        let doc = match parse(contents) {
            Ok(doc) => doc,
            Err(e) => {
                return Err(e);
            },
        };
        let rows = match scan_cache_document(&doc, app_id, game_name, schema, rates, now) {
            Ok(rows) => rows,
            Err(e) => {
                return Err(e);
            },
        };
        store_rows(db, &rows)
    }

    /// Scans the JSON file of the emulator for a game and writes its rows to
    /// the store. Returns how many achievements are unlocked.
    pub fn scan_goldberg_achievements(
        &self,
        db: &mut AchievementDatabase,
        app_id: u32,
        game_name: &str,
        contents: &str,
        schema: &Vec<SteamAchievementSchema>,
        rates: Option<&Vec<GlobalRate>>,
        now: i64,
    ) -> (r: Result<usize, EngineError>)
        requires
            old(db).wf(),
        ensures
            final(db).wf(),
            final(db).exclusions() == old(db).exclusions(),
            crate::laws::times_kept(old(db)@, final(db)@),
            match r {
                Ok(count) => committed(
                    old(db)@,
                    old(db).next_row_id(),
                    goldberg_scan_text(
                        contents@,
                        app_id,
                        game_name@,
                        schema_view(schema@),
                        rates_view(rates),
                        now,
                    ),
                ) == Ok::<(Seq<AchievementRecord>, int, nat), EngineError>(
                    (final(db)@, final(db).next_row_id(), count as nat),
                ),
                Err(e) => committed(
                    old(db)@,
                    old(db).next_row_id(),
                    goldberg_scan_text(
                        contents@,
                        app_id,
                        game_name@,
                        schema_view(schema@),
                        rates_view(rates),
                        now,
                    ),
                ) == Err::<(Seq<AchievementRecord>, int, nat), EngineError>(e),
            },
            r is Err ==> left_by_failure(
                old(db)@,
                old(db).next_row_id(),
                goldberg_scan_text(
                    contents@,
                    app_id,
                    game_name@,
                    schema_view(schema@),
                    rates_view(rates),
                    now,
                ),
                final(db)@,
                final(db).next_row_id(),
            ),
            r matches Err(e) && e != EngineError::Storage ==> final(db)@ == old(db)@
                && final(db).next_row_id() == old(db).next_row_id(),
    {
        let doc = match parse(contents) {
            Ok(doc) => doc,
            Err(e) => {
                return Err(e);
            },
        };
        let rows = match scan_goldberg_document(&doc, app_id, game_name, schema, rates, now) {
            Ok(rows) => rows,
            Err(e) => {
                return Err(e);
            },
        };
        store_rows(db, &rows)
    }

    /// Scans the INI file of the emulator for a game and writes its rows to
    /// the store. Returns how many achievements are unlocked.
    pub fn scan_onlinefix_achievements(
        &self,
        db: &mut AchievementDatabase,
        app_id: u32,
        game_name: &str,
        contents: &str,
        schema: &Vec<SteamAchievementSchema>,
        rates: Option<&Vec<GlobalRate>>,
        now: i64,
    ) -> (r: Result<usize, EngineError>)
        requires
            old(db).wf(),
        ensures
            final(db).wf(),
            final(db).exclusions() == old(db).exclusions(),
            crate::laws::times_kept(old(db)@, final(db)@),
            match r {
                Ok(count) => committed(
                    old(db)@,
                    old(db).next_row_id(),
                    Ok(
                        ini_rows(
                            app_id,
                            game_name@,
                            schema_view(schema@),
                            ini_sections(contents@),
                            rates_view(rates),
                            now,
                        ),
                    ),
                ) == Ok::<(Seq<AchievementRecord>, int, nat), EngineError>(
                    (final(db)@, final(db).next_row_id(), count as nat),
                ),
                Err(e) => committed(
                    old(db)@,
                    old(db).next_row_id(),
                    Ok(
                        ini_rows(
                            app_id,
                            game_name@,
                            schema_view(schema@),
                            ini_sections(contents@),
                            rates_view(rates),
                            now,
                        ),
                    ),
                ) == Err::<(Seq<AchievementRecord>, int, nat), EngineError>(e),
            },
            r is Err ==> left_by_failure(
                old(db)@,
                old(db).next_row_id(),
                Ok(
                    ini_rows(
                        app_id,
                        game_name@,
                        schema_view(schema@),
                        ini_sections(contents@),
                        rates_view(rates),
                        now,
                    ),
                ),
                final(db)@,
                final(db).next_row_id(),
            ),
    {
        let rows = scan_onlinefix_rows(contents, app_id, game_name, schema, rates, now);
        store_rows(db, &rows)
    }
}

// ---------------------------------------------------------------------------
// The platform's file of a game's statistics
// ---------------------------------------------------------------------------
/// One achievement of the statistics file, as a mathematical value.
pub struct StatRecord {
    pub achievement: Seq<char>,
    pub unlocked: i32,
    pub unlocktime: Option<i64>,
}

/// One achievement of the statistics file.
#[derive(Debug, Clone)]
pub struct SteamAchievement {
    pub achievement: String,
    pub unlocked: i32,
    pub unlocktime: Option<i64>,
}

impl View for SteamAchievement {
    type V = StatRecord;

    open spec fn view(&self) -> StatRecord {
        StatRecord {
            achievement: self.achievement@,
            unlocked: self.unlocked,
            unlocktime: self.unlocktime,
        }
    }
}

/// The entries of a list, each by its view.
pub open spec fn stat_records(list: Seq<SteamAchievement>) -> Seq<StatRecord> {
    Seq::new(list.len(), |i: int| list[i]@)
}

/// One entry of the statistics file; `None` where it is not as expected.
pub open spec fn stat_of_item(item: JsonModel) -> Option<StatRecord> {
    match (
        required_text(item, "achievement"@),
        item.member("unlocked"@),
        optional_i64(item, "unlocktime"@),
    ) {
        (Some(achievement), Some(u), Some(unlocktime)) => match u.integer() {
            Some(n) => if i32::MIN <= n <= i32::MAX {
                Some(StatRecord { achievement, unlocked: n as i32, unlocktime })
            } else {
                None
            },
            None => None,
        },
        _ => None,
    }
}

/// The first `n` entries of the statistics file; `None` where one is not as
/// expected.
pub open spec fn stat_entries(items: Seq<JsonModel>, n: nat) -> Option<Seq<StatRecord>>
    decreases n,
{
    if n == 0 || n > items.len() {
        Some(Seq::empty())
    } else {
        match (stat_entries(items, (n - 1) as nat), stat_of_item(items[n - 1])) {
            (Some(before), Some(s)) => Some(before.push(s)),
            _ => None,
        }
    }
}

/// The row of one entry of the statistics file: under the web API's tag,
/// named by its key, unlocked where the file says `1`.
pub open spec fn stat_row(app_id: u32, game_name: Seq<char>, stat: StatRecord, now: i64)
    -> AchievementRecord {
    AchievementRecord {
        id: None,
        app_id,
        game_name,
        achievement_id: stat.achievement,
        display_name: stat.achievement,
        description: Seq::empty(),
        icon_url: None,
        icon_gray_url: None,
        hidden: false,
        achieved: stat.unlocked == 1,
        unlock_time: if stat.unlocked == 1 {
            stat.unlocktime
        } else {
            None
        },
        source: ProviderTag::RemoteApi,
        last_updated: now,
        global_unlock_percentage: None,
    }
}

/// What a scan of the statistics file gives for a document: `Parse` where
/// the document is no list of entries, else one row for each entry.
pub open spec fn stats_scan(doc: JsonModel, app_id: u32, game_name: Seq<char>, now: i64) -> Result<
    Seq<AchievementRecord>,
    EngineError,
> {
    match doc.items() {
        Some(items) => match stat_entries(items, items.len()) {
            Some(stats) => Ok(stat_rows(app_id, game_name, stats, now)),
            None => Err(EngineError::Parse),
        },
        None => Err(EngineError::Parse),
    }
}

/// One entry of the statistics file.
pub fn read_stat(item: &JsonValue) -> (r: Result<SteamAchievement, EngineError>)
    ensures
        match r {
            Ok(s) => stat_of_item(item@) == Some(s@),
            Err(e) => e == EngineError::Parse && stat_of_item(item@) is None,
        },
{
    let achievement = get_required_text(item, "achievement")?;
    let unlocked = match item.get("unlocked") {
        Some(u) => match u.as_i64() {
            Some(n) => if -2147483648 <= n && n <= 2147483647 {
                n as i32
            } else {
                return Err(EngineError::Parse);
            },
            None => {
                return Err(EngineError::Parse);
            },
        },
        None => {
            return Err(EngineError::Parse);
        },
    };
    let unlocktime = get_optional_i64(item, "unlocktime")?;
    Ok(SteamAchievement { achievement, unlocked, unlocktime })
}

/// Once an entry was not as expected, more entries do not help.
pub proof fn lemma_stat_entries_fail(items: Seq<JsonModel>, n: nat, m: nat)
    requires
        n <= m <= items.len(),
        stat_entries(items, n) is None,
    ensures
        stat_entries(items, m) is None,
    decreases m,
{
    if n < m {
        lemma_stat_entries_fail(items, n, (m - 1) as nat);
    }
}

/// Scans a document of the platform's statistics file.
pub fn parse_steam_achievements_json(doc: &JsonValue, app_id: u32, game_name: &str, now: i64) -> (r:
    Result<Vec<Achievement>, EngineError>)
    ensures
        match r {
            Ok(rows) => stats_scan(doc@, app_id, game_name@, now) == Ok::<
                Seq<AchievementRecord>,
                EngineError,
            >(records(rows@)) && rows_wf(records(rows@)),
            Err(e) => stats_scan(doc@, app_id, game_name@, now) == Err::<
                Seq<AchievementRecord>,
                EngineError,
            >(e),
        },
{
    let items = match doc.as_array() {
        Some(items) => items,
        None => {
            return Err(EngineError::Parse);
        },
    };
    let mut stats: Vec<SteamAchievement> = Vec::new();
    let mut i: usize = 0;
    while i < items.len()
        invariant
            i <= items@.len(),
            doc@.items() == Some(item_trees(items@)),
            stat_entries(item_trees(items@), i as nat) == Some(stat_records(stats@)),
        decreases items@.len() - i,
    {
        match read_stat(&items[i]) {
            Ok(stat) => {
                stats.push(stat);
            },
            Err(e) => {
                proof {
                    lemma_stat_entries_fail(item_trees(items@), (i + 1) as nat, items@.len() as nat);
                }
                return Err(e);
            },
        }
        i = i + 1;
    }
    Ok(rows_of_stats(&stats, app_id, game_name, now))
}

/// The rows of a list of entries of the statistics file.
pub open spec fn stat_rows(app_id: u32, game_name: Seq<char>, stats: Seq<StatRecord>, now: i64) -> Seq<
    AchievementRecord,
> {
    Seq::new(stats.len(), |i: int| stat_row(app_id, game_name, stats[i], now))
}

/// The rows of a list of entries of the statistics file: one for each
/// entry.
pub fn rows_of_stats(stats: &Vec<SteamAchievement>, app_id: u32, game_name: &str, now: i64) -> (rows:
    Vec<Achievement>)
    ensures
        records(rows@) == stat_rows(app_id, game_name@, stat_records(stats@), now),
        rows_wf(records(rows@)),
{
    let mut rows: Vec<Achievement> = Vec::new();
    let mut k: usize = 0;
    while k < stats.len()
        invariant
            k <= stats@.len(),
            rows@.len() == k,
            forall|j: int|
                0 <= j < k ==> (#[trigger] rows@[j])@ == stat_row(
                    app_id,
                    game_name@,
                    stat_records(stats@)[j],
                    now,
                ),
        decreases stats@.len() - k,
    {
        let stat = &stats[k];
        rows.push(
            Achievement {
                id: None,
                app_id,
                game_name: game_name.to_owned(),
                achievement_id: stat.achievement.clone(),
                display_name: stat.achievement.clone(),
                description: String::new(),
                icon_url: None,
                icon_gray_url: None,
                hidden: false,
                achieved: stat.unlocked == 1,
                unlock_time: if stat.unlocked == 1 {
                    stat.unlocktime
                } else {
                    None
                },
                source: ProviderTag::RemoteApi,
                last_updated: now,
                global_unlock_percentage: None,
            },
        );
        k = k + 1;
    }
    rows
}

} // verus!

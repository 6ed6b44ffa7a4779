//! The unlock watcher and the bookkeeping of the orchestrator: which file to
//! watch for a game, which games wait for a file, and what a reparse of a
//! watched file unlocks.

use crate::achievement_scanner::{
    cache_data, cache_list, CacheList, find_cache_data, item_flag, item_status, item_time,
    member_trees, read_status, trees,
};
use crate::achievements::{
    Achievement, AchievementDatabase, AchievementRecord, copy_opt_text, excludes,
    lemma_row_position, ProviderTag, records, rows_of_game,
};
use crate::error::EngineError;
use crate::ini::{ini_sections, parse_ini, section_records, SectionRecord};
use crate::json::{document_of, JsonModel, JsonValue, parse};
use crate::key_match::{binding, lemma_binding_in_range, Lexicon};
use crate::keyed::{
    distinct, entry_of, lemma_no_entry, lemma_place_of, lemma_pushed, lemma_removed, lemma_updated,
    place_of,
};
use crate::paths::{app_id_text, FilePath, id_text, PathRecord, root_path};
use crate::steam_achievements::{
    find_rate, GlobalRate, opt_text, rate_of, RateRecord, rates_view, schema_view, SchemaEntry,
    SteamAchievementSchema,
};
use crate::text::chars_of;
use vstd::prelude::*;
use vstd::string::StringExecFns;

verus! {

/// The kind of source that a watcher reads.
#[derive(Debug, Clone, Copy, PartialEq, Eq, Structural)]
pub enum AchievementSourceType {
    OnlineFix,
    LibraryCache,
    Goldberg,
    SteamWebApi,
}

impl AchievementSourceType {
    /// The provider that the source stands for.
    pub open spec fn provider(self) -> ProviderTag {
        match self {
            AchievementSourceType::OnlineFix => ProviderTag::EmulatorB,
            AchievementSourceType::LibraryCache => ProviderTag::PlatformCache,
            AchievementSourceType::Goldberg => ProviderTag::EmulatorA,
            AchievementSourceType::SteamWebApi => ProviderTag::RemoteApi,
        }
    }

    /// The name of the source as it is shown.
    pub open spec fn label(self) -> Seq<char> {
        match self {
            AchievementSourceType::OnlineFix => "Online-fix"@,
            AchievementSourceType::LibraryCache => "Steamtools"@,
            AchievementSourceType::Goldberg => "Goldberg"@,
            AchievementSourceType::SteamWebApi => "Steam Web API"@,
        }
    }

    /// The provider that the source stands for.
    pub fn tag(&self) -> (r: ProviderTag)
        ensures
            r == self.provider(),
    {
        match self {
            AchievementSourceType::OnlineFix => ProviderTag::EmulatorB,
            AchievementSourceType::LibraryCache => ProviderTag::PlatformCache,
            AchievementSourceType::Goldberg => ProviderTag::EmulatorA,
            AchievementSourceType::SteamWebApi => ProviderTag::RemoteApi,
        }
    }

    /// The source that stands for a provider; none for rows that the user
    /// wrote.
    pub fn of_tag(tag: ProviderTag) -> (r: Option<AchievementSourceType>)
        ensures
            r == source_for(tag),
            match r {
                Some(s) => s.provider() == tag,
                None => tag == ProviderTag::Manual,
            },
    {
        match tag {
            ProviderTag::EmulatorB => Some(AchievementSourceType::OnlineFix),
            ProviderTag::PlatformCache => Some(AchievementSourceType::LibraryCache),
            ProviderTag::EmulatorA => Some(AchievementSourceType::Goldberg),
            ProviderTag::RemoteApi => Some(AchievementSourceType::SteamWebApi),
            ProviderTag::Manual => None,
        }
    }

    /// The source that a name stands for: a name as it is shown, or the name
    /// under which the provider's rows are kept.
    pub fn from_name(name: &str) -> (r: Option<AchievementSourceType>)
        ensures
            r == match crate::achievements::tag_of_label(name@) {
                Some(tag) => source_for(tag),
                None => None,
            },
    {
        match ProviderTag::from_label(name) {
            Some(tag) => Self::of_tag(tag),
            None => None,
        }
    }

    /// The name of the source as it is shown.
    pub fn to_string(&self) -> (r: String)
        ensures
            r@ == self.label(),
    {
        match self {
            AchievementSourceType::OnlineFix => "Online-fix".to_owned(),
            AchievementSourceType::LibraryCache => "Steamtools".to_owned(),
            AchievementSourceType::Goldberg => "Goldberg".to_owned(),
            AchievementSourceType::SteamWebApi => "Steam Web API".to_owned(),
        }
    }
}

/// A file to watch for a game, as a mathematical value.
pub struct SourceRecord {
    pub app_id: u32,
    pub game_name: Seq<char>,
    pub file_path: PathRecord,
    pub source_type: AchievementSourceType,
}

/// A file to watch for a game.
#[derive(Debug, Clone)]
pub struct GameAchievementSource {
    pub app_id: u32,
    pub game_name: String,
    pub file_path: FilePath,
    pub source_type: AchievementSourceType,
}

impl View for GameAchievementSource {
    type V = SourceRecord;

    open spec fn view(&self) -> SourceRecord {
        SourceRecord {
            app_id: self.app_id,
            game_name: self.game_name@,
            file_path: self.file_path@,
            source_type: self.source_type,
        }
    }
}

impl GameAchievementSource {
    /// A copy of the source.
    pub fn duplicate(&self) -> (r: GameAchievementSource)
        ensures
            r@ == self@,
    {
        GameAchievementSource {
            app_id: self.app_id,
            game_name: self.game_name.clone(),
            file_path: self.file_path.duplicate(),
            source_type: self.source_type,
        }
    }
}

/// The sources of a list, each by its view.
pub open spec fn source_records(list: Seq<GameAchievementSource>) -> Seq<SourceRecord> {
    Seq::new(list.len(), |i: int| list[i]@)
}

/// The view of an optional source.
pub open spec fn source_view(s: Option<GameAchievementSource>) -> Option<SourceRecord> {
    match s {
        Some(s) => Some(s@),
        None => None,
    }
}

/// The directory below which the INI emulator keeps its files.
pub open spec fn onlinefix_root() -> Seq<char> {
    "C:\\Users\\Public\\Documents\\OnlineFix"@
}

/// A file of a game under a source.
pub open spec fn source_at(
    app_id: u32,
    game_name: Seq<char>,
    file_path: PathRecord,
    source_type: AchievementSourceType,
) -> SourceRecord {
    SourceRecord { app_id, game_name, file_path, source_type }
}

/// The places where the platform's cache of a game may lie: one below the
/// configured user's directory, none without a configured user.
pub open spec fn librarycache_candidates(
    steam_path: PathRecord,
    user_id: Option<Seq<char>>,
    app_id: u32,
    game_name: Seq<char>,
) -> Seq<SourceRecord> {
    match user_id {
        Some(user) => seq![
            source_at(
                app_id,
                game_name,
                steam_path.join("userdata"@).join(user).join("config"@).join("librarycache"@).join(
                    id_text(app_id) + ".json"@,
                ),
                AchievementSourceType::LibraryCache,
            ),
        ],
        None => Seq::empty(),
    }
}

/// The places where the JSON emulator's file of a game may lie, in the order
/// in which they are tried; none where the user's application data
/// directory is not known.
pub open spec fn goldberg_candidates(appdata: Option<Seq<char>>, app_id: u32, game_name: Seq<char>)
    -> Seq<SourceRecord> {
    match appdata {
        Some(dir) => seq![
            source_at(
                app_id,
                game_name,
                root_path(dir).join("GSE Saves"@).join(id_text(app_id)).join("achievements.json"@),
                AchievementSourceType::Goldberg,
            ),
            source_at(
                app_id,
                game_name,
                root_path(dir).join("Goldberg SteamEmu Saves"@).join(id_text(app_id)).join(
                    "achievements.json"@,
                ),
                AchievementSourceType::Goldberg,
            ),
        ],
        None => Seq::empty(),
    }
}

/// The places where the INI emulator's file of a game may lie, in the order
/// in which they are tried.
pub open spec fn onlinefix_candidates(app_id: u32, game_name: Seq<char>) -> Seq<SourceRecord> {
    let base = root_path(onlinefix_root()).join(id_text(app_id));
    seq![
        source_at(
            app_id,
            game_name,
            base.join("Stats"@).join("Achievements.ini"@),
            AchievementSourceType::OnlineFix,
        ),
        source_at(
            app_id,
            game_name,
            base.join("stats"@).join("Achievements.ini"@),
            AchievementSourceType::OnlineFix,
        ),
        source_at(
            app_id,
            game_name,
            base.join("Stats"@).join("achievements.ini"@),
            AchievementSourceType::OnlineFix,
        ),
        source_at(
            app_id,
            game_name,
            base.join("stats"@).join("achievements.ini"@),
            AchievementSourceType::OnlineFix,
        ),
    ]
}

/// The places where the file of one kind of source may lie.
pub open spec fn candidates_of(
    source_type: AchievementSourceType,
    steam_path: PathRecord,
    user_id: Option<Seq<char>>,
    appdata: Option<Seq<char>>,
    app_id: u32,
    game_name: Seq<char>,
) -> Seq<SourceRecord> {
    match source_type {
        AchievementSourceType::LibraryCache => librarycache_candidates(
            steam_path,
            user_id,
            app_id,
            game_name,
        ),
        AchievementSourceType::Goldberg => goldberg_candidates(appdata, app_id, game_name),
        AchievementSourceType::OnlineFix => onlinefix_candidates(app_id, game_name),
        AchievementSourceType::SteamWebApi => Seq::empty(),
    }
}

/// All places where a file of a game may lie, in the order of discovery: the
/// platform's cache, the JSON emulator, the INI emulator.
pub open spec fn all_candidates(
    steam_path: PathRecord,
    user_id: Option<Seq<char>>,
    appdata: Option<Seq<char>>,
    app_id: u32,
    game_name: Seq<char>,
) -> Seq<SourceRecord> {
    librarycache_candidates(steam_path, user_id, app_id, game_name) + goldberg_candidates(
        appdata,
        app_id,
        game_name,
    ) + onlinefix_candidates(app_id, game_name)
}

/// The first of the candidates `candidates[from..]` whose file exists. A
/// candidate of which `exists` says nothing does not exist.
pub open spec fn first_existing(candidates: Seq<SourceRecord>, exists: Seq<bool>, from: int)
    -> Option<SourceRecord>
    decreases candidates.len() - from,
{
    if from < 0 || from >= candidates.len() {
        None
    } else if from < exists.len() && exists[from] {
        Some(candidates[from])
    } else {
        first_existing(candidates, exists, from + 1)
    }
}

/// A file of a game under a source.
fn source_of(app_id: u32, game_name: &str, file_path: FilePath, source_type: AchievementSourceType)
    -> (r: GameAchievementSource)
    ensures
        r@ == source_at(app_id, game_name@, file_path@, source_type),
{
    GameAchievementSource { app_id, game_name: game_name.to_owned(), file_path, source_type }
}

/// The places where the file of one kind of source may lie for a game.
pub fn source_candidates(
    source_type: AchievementSourceType,
    steam_path: &FilePath,
    user_id: &Option<String>,
    appdata: &Option<String>,
    app_id: u32,
    game_name: &str,
) -> (r: Vec<GameAchievementSource>)
    ensures
        source_records(r@) == candidates_of(
            source_type,
            steam_path@,
            opt_text(*user_id),
            opt_text(*appdata),
            app_id,
            game_name@,
        ),
{
    let mut out: Vec<GameAchievementSource> = Vec::new();
    let id = app_id_text(app_id);
    match source_type {
        AchievementSourceType::LibraryCache => {
            match user_id {
                Some(user) => {
                    let file = id.clone().concat(".json");
                    let path = steam_path.join("userdata").join(user.as_str()).join("config").join(
                        "librarycache",
                    ).join(file.as_str());
                    out.push(source_of(app_id, game_name, path, source_type));
                },
                None => {},
            }
        },
        AchievementSourceType::Goldberg => {
            match appdata {
                Some(dir) => {
                    let root = FilePath::new(dir.as_str());
                    out.push(
                        source_of(
                            app_id,
                            game_name,
                            root.join("GSE Saves").join(id.as_str()).join("achievements.json"),
                            source_type,
                        ),
                    );
                    out.push(
                        source_of(
                            app_id,
                            game_name,
                            root.join("Goldberg SteamEmu Saves").join(id.as_str()).join(
                                "achievements.json",
                            ),
                            source_type,
                        ),
                    );
                },
                None => {},
            }
        },
        AchievementSourceType::OnlineFix => {
            let base = FilePath::new("C:\\Users\\Public\\Documents\\OnlineFix").join(id.as_str());
            out.push(
                source_of(
                    app_id,
                    game_name,
                    base.join("Stats").join("Achievements.ini"),
                    source_type,
                ),
            );
            out.push(
                source_of(
                    app_id,
                    game_name,
                    base.join("stats").join("Achievements.ini"),
                    source_type,
                ),
            );
            out.push(
                source_of(
                    app_id,
                    game_name,
                    base.join("Stats").join("achievements.ini"),
                    source_type,
                ),
            );
            out.push(
                source_of(
                    app_id,
                    game_name,
                    base.join("stats").join("achievements.ini"),
                    source_type,
                ),
            );
        },
        AchievementSourceType::SteamWebApi => {},
    }
    assert(source_records(out@) == candidates_of(
        source_type,
        steam_path@,
        opt_text(*user_id),
        opt_text(*appdata),
        app_id,
        game_name@,
    ));
    out
}

/// The first of the candidates whose file exists.
pub fn pick_existing(candidates: &Vec<GameAchievementSource>, exists: &Vec<bool>) -> (r: Option<
    GameAchievementSource,
>)
    ensures
        source_view(r) == first_existing(source_records(candidates@), exists@, 0),
{
    let mut i: usize = 0;
    while i < candidates.len()
        invariant
            i <= candidates@.len(),
            first_existing(source_records(candidates@), exists@, 0) == first_existing(
                source_records(candidates@),
                exists@,
                i as int,
            ),
        decreases candidates@.len() - i,
    {
        if i < exists.len() && exists[i] {
            return Some(candidates[i].duplicate());
        }
        i = i + 1;
    }
    None
}

// ---------------------------------------------------------------------------
// The games that are watched and the games that wait
// ---------------------------------------------------------------------------
/// A game that waits for a file to appear, as a mathematical value.
pub struct PendingRecord {
    pub app_id: u32,
    pub game_name: Seq<char>,
    pub last_probe: u64,
}

/// A game that waits for a file to appear, and when it was last looked for,
/// in seconds.
#[derive(Debug, Clone)]
pub struct PendingGame {
    pub app_id: u32,
    pub game_name: String,
    pub last_probe: u64,
}

impl View for PendingGame {
    type V = PendingRecord;

    open spec fn view(&self) -> PendingRecord {
        PendingRecord { app_id: self.app_id, game_name: self.game_name@, last_probe: self.last_probe }
    }
}

/// The games of a list, each by its view.
pub open spec fn pending_records(list: Seq<PendingGame>) -> Seq<PendingRecord> {
    Seq::new(list.len(), |i: int| list[i]@)
}

/// The game of a watched file.
pub open spec fn source_key() -> spec_fn(SourceRecord) -> u32 {
    |s: SourceRecord| s.app_id
}

/// The game of an entry of the waiting list.
pub open spec fn pending_key() -> spec_fn(PendingRecord) -> u32 {
    |p: PendingRecord| p.app_id
}

/// The file that a list watches for a game.
pub open spec fn watch_of(list: Seq<SourceRecord>, app_id: u32) -> Option<SourceRecord> {
    entry_of(list, source_key(), app_id)
}

/// The entry of a game on a list of waiting games.
pub open spec fn pending_of(list: Seq<PendingRecord>, app_id: u32) -> Option<PendingRecord> {
    entry_of(list, pending_key(), app_id)
}

/// What the orchestrator does with a game that started or that waits.
pub enum WatchDecision {
    /// Nothing: the game is excluded, or it is not tracked.
    Ignored,
    /// Watch this file.
    Watching(GameAchievementSource),
    /// No file yet: the game waits.
    Pending,
}

/// The bookkeeping of the orchestrator.
pub struct AchievementWatcher {
    watched: Vec<GameAchievementSource>,
    pending: Vec<PendingGame>,
    steam_path: FilePath,
    steam_user_id: Option<String>,
}

impl AchievementWatcher {
    /// The files that are watched, one for each game at most.
    pub closed spec fn watched(&self) -> Seq<SourceRecord> {
        source_records(self.watched@)
    }

    /// The games that wait, each once at most.
    pub closed spec fn pending(&self) -> Seq<PendingRecord> {
        pending_records(self.pending@)
    }

    /// The directory of the platform's installation.
    pub closed spec fn steam_path(&self) -> PathRecord {
        self.steam_path@
    }

    /// The configured user of the platform.
    pub closed spec fn steam_user_id(&self) -> Option<Seq<char>> {
        opt_text(self.steam_user_id)
    }

    /// Whether no game is watched twice and none waits twice.
    pub open spec fn wf(&self) -> bool {
        distinct(self.watched(), source_key()) && distinct(self.pending(), pending_key())
    }

    /// The file that is watched for a game.
    pub open spec fn watching(&self, app_id: u32) -> Option<SourceRecord> {
        watch_of(self.watched(), app_id)
    }

    /// The entry of a game that waits.
    pub open spec fn waiting(&self, app_id: u32) -> Option<PendingRecord> {
        pending_of(self.pending(), app_id)
    }

    /// Whether the paths and the user are the same.
    pub open spec fn same_setup(&self, other: &AchievementWatcher) -> bool {
        self.steam_path() == other.steam_path() && self.steam_user_id() == other.steam_user_id()
    }

    /// A watcher that watches nothing yet.
    pub fn new(steam_path: FilePath, steam_user_id: Option<String>) -> (r: AchievementWatcher)
        ensures
            r.wf(),
            r.watched() == Seq::<SourceRecord>::empty(),
            r.pending() == Seq::<PendingRecord>::empty(),
            r.steam_path() == steam_path@,
            r.steam_user_id() == opt_text(steam_user_id),
    {
        let r = AchievementWatcher {
            watched: Vec::new(),
            pending: Vec::new(),
            steam_path,
            steam_user_id,
        };
        r
    }

    /// The place of a game among the watched.
    fn find_watch(&self, app_id: u32) -> (r: Option<usize>)
        ensures
            match r {
                Some(i) => place_of(self.watched(), source_key(), app_id, 0) == Some(i as int)
                    && i < self.watched().len() && self.watched()[i as int].app_id == app_id,
                None => place_of(self.watched(), source_key(), app_id, 0) is None && forall|
                    j: int,
                |
                    0 <= j < self.watched().len() ==> (source_key())(#[trigger] self.watched()[j])
                        != app_id,
            },
    {
        proof {
            lemma_place_of(self.watched(), source_key(), app_id, 0);
        }
        let mut i: usize = 0;
        while i < self.watched.len()
            invariant
                i <= self.watched@.len(),
                place_of(self.watched(), source_key(), app_id, 0) == place_of(
                    self.watched(),
                    source_key(),
                    app_id,
                    i as int,
                ),
            decreases self.watched@.len() - i,
        {
            if self.watched[i].app_id == app_id {
                return Some(i);
            }
            i = i + 1;
        }
        None
    }

    /// The place of a game among the waiting.
    fn find_pending(&self, app_id: u32) -> (r: Option<usize>)
        ensures
            match r {
                Some(i) => place_of(self.pending(), pending_key(), app_id, 0) == Some(i as int)
                    && i < self.pending().len() && self.pending()[i as int].app_id == app_id,
                None => place_of(self.pending(), pending_key(), app_id, 0) is None && forall|
                    j: int,
                |
                    0 <= j < self.pending().len() ==> (pending_key())(#[trigger] self.pending()[j])
                        != app_id,
            },
    {
        proof {
            lemma_place_of(self.pending(), pending_key(), app_id, 0);
        }
        let mut i: usize = 0;
        while i < self.pending.len()
            invariant
                i <= self.pending@.len(),
                place_of(self.pending(), pending_key(), app_id, 0) == place_of(
                    self.pending(),
                    pending_key(),
                    app_id,
                    i as int,
                ),
            decreases self.pending@.len() - i,
        {
            if self.pending[i].app_id == app_id {
                return Some(i);
            }
            i = i + 1;
        }
        None
    }

    /// Notes the file that is watched for a game from now on.
    fn set_watch(&mut self, source: GameAchievementSource)
        requires
            old(self).wf(),
        ensures
            final(self).wf(),
            final(self).watching(source.app_id) == Some(source@),
            forall|id: u32|
                id != source.app_id ==> final(self).watching(id) == old(self).watching(id),
            final(self).pending() == old(self).pending(),
            final(self).same_setup(old(self)),
    {
        let ghost before = self.watched();
        let ghost added = source@;
        match self.find_watch(source.app_id) {
            Some(i) => {
                self.watched.set(i, source);
                assert(self.watched() == before.update(i as int, added));
                proof {
                    lemma_updated(before, source_key(), i as int, added);
                }
            },
            None => {
                self.watched.push(source);
                assert(self.watched() == before.push(added));
                proof {
                    lemma_pushed(before, source_key(), added);
                }
            },
        }
    }

    /// Forgets the file that is watched for a game.
    fn clear_watch(&mut self, app_id: u32)
        requires
            old(self).wf(),
        ensures
            final(self).wf(),
            final(self).watching(app_id) is None,
            forall|id: u32| id != app_id ==> final(self).watching(id) == old(self).watching(id),
            final(self).pending() == old(self).pending(),
            final(self).same_setup(old(self)),
    {
        let ghost before = self.watched();
        match self.find_watch(app_id) {
            Some(i) => {
                self.watched.remove(i);
                assert(self.watched() == before.remove(i as int));
                proof {
                    lemma_removed(before, source_key(), i as int);
                }
            },
            None => {
                proof {
                    lemma_no_entry(before, source_key(), app_id);
                }
            },
        }
    }

    /// Notes that a game waits since `now`.
    fn set_pending(&mut self, app_id: u32, game_name: String, now: u64)
        requires
            old(self).wf(),
        ensures
            final(self).wf(),
            final(self).waiting(app_id) == Some(
                PendingRecord { app_id, game_name: game_name@, last_probe: now },
            ),
            forall|id: u32| id != app_id ==> final(self).waiting(id) == old(self).waiting(id),
            final(self).watched() == old(self).watched(),
            final(self).same_setup(old(self)),
    {
        let ghost before = self.pending();
        let ghost added = PendingRecord { app_id, game_name: game_name@, last_probe: now };
        match self.find_pending(app_id) {
            Some(i) => {
                self.pending.set(i, PendingGame { app_id, game_name, last_probe: now });
                assert(self.pending() == before.update(i as int, added));
                proof {
                    lemma_updated(before, pending_key(), i as int, added);
                }
            },
            None => {
                self.pending.push(PendingGame { app_id, game_name, last_probe: now });
                assert(self.pending() == before.push(added));
                proof {
                    lemma_pushed(before, pending_key(), added);
                }
            },
        }
    }

    /// Takes a game off the waiting list.
    fn clear_pending(&mut self, app_id: u32)
        requires
            old(self).wf(),
        ensures
            final(self).wf(),
            final(self).waiting(app_id) is None,
            forall|id: u32| id != app_id ==> final(self).waiting(id) == old(self).waiting(id),
            final(self).watched() == old(self).watched(),
            final(self).same_setup(old(self)),
    {
        let ghost before = self.pending();
        match self.find_pending(app_id) {
            Some(i) => {
                self.pending.remove(i);
                assert(self.pending() == before.remove(i as int));
                proof {
                    lemma_removed(before, pending_key(), i as int);
                }
            },
            None => {
                proof {
                    lemma_no_entry(before, pending_key(), app_id);
                }
            },
        }
    }

    /// Stops watching every game. The games that wait go on waiting.
    pub fn stop_all_watchers(&mut self)
        requires
            old(self).wf(),
        ensures
            final(self).wf(),
            final(self).watched() == Seq::<SourceRecord>::empty(),
            final(self).pending() == old(self).pending(),
            final(self).same_setup(old(self)),
    {
        self.watched = Vec::new();
    }

    /// Stops watching a game: its file is forgotten, and it waits no longer.
    pub fn stop_watching_game(&mut self, app_id: u32)
        requires
            old(self).wf(),
        ensures
            final(self).wf(),
            final(self).watching(app_id) is None,
            final(self).waiting(app_id) is None,
            forall|id: u32|
                id != app_id ==> final(self).watching(id) == old(self).watching(id),
            forall|id: u32| id != app_id ==> final(self).waiting(id) == old(self).waiting(id),
            final(self).same_setup(old(self)),
    {
        self.clear_watch(app_id);
        self.clear_pending(app_id);
    }
}

// ---------------------------------------------------------------------------
// What to do when a game starts, and when a game waits
// ---------------------------------------------------------------------------
/// The kind of source that stands for a provider; none for rows that the
/// user wrote.
pub open spec fn source_for(tag: ProviderTag) -> Option<AchievementSourceType> {
    match tag {
        ProviderTag::EmulatorB => Some(AchievementSourceType::OnlineFix),
        ProviderTag::PlatformCache => Some(AchievementSourceType::LibraryCache),
        ProviderTag::EmulatorA => Some(AchievementSourceType::Goldberg),
        ProviderTag::RemoteApi => Some(AchievementSourceType::SteamWebApi),
        ProviderTag::Manual => None,
    }
}

/// Whether a game that started is to be watched at all: it is not excluded
/// and the store has rows of it.
pub open spec fn is_tracked(db: &AchievementDatabase, app_id: u32) -> bool {
    !excludes(db.exclusions(), app_id) && rows_of_game(db@, app_id).len() > 0
}

/// The places to look at when a tracked game starts: those of the provider
/// of the game's first row.
pub open spec fn bound_candidates(
    db: &AchievementDatabase,
    steam_path: PathRecord,
    user_id: Option<Seq<char>>,
    appdata: Option<Seq<char>>,
    app_id: u32,
    game_name: Seq<char>,
) -> Seq<SourceRecord> {
    if is_tracked(db, app_id) {
        match source_for(rows_of_game(db@, app_id)[0].source) {
            Some(t) => candidates_of(t, steam_path, user_id, appdata, app_id, game_name),
            None => Seq::empty(),
        }
    } else {
        Seq::empty()
    }
}

/// Whether a waiting game is due for another look: its last look is ten
/// minutes old or older.
pub open spec fn is_due(p: PendingRecord, now: u64) -> bool {
    now >= p.last_probe && now - p.last_probe >= 600
}

/// Those of the first `n` waiting games that are due, in order.
pub open spec fn due_games(list: Seq<PendingRecord>, now: u64, n: nat) -> Seq<PendingRecord>
    decreases n,
{
    if n == 0 || n > list.len() {
        Seq::empty()
    } else if is_due(list[n - 1], now) {
        due_games(list, now, (n - 1) as nat).push(list[n - 1])
    } else {
        due_games(list, now, (n - 1) as nat)
    }
}

/// Joins three lists of candidates.
fn join_candidates(
    mut a: Vec<GameAchievementSource>,
    mut b: Vec<GameAchievementSource>,
    mut c: Vec<GameAchievementSource>,
) -> (r: Vec<GameAchievementSource>)
    ensures
        source_records(r@) == source_records(a@) + source_records(b@) + source_records(c@),
{
    a.append(&mut b);
    a.append(&mut c);
    a
}

impl AchievementWatcher {
    /// All places where a file of a game may lie, in the order of discovery.
    pub fn discovery_candidates(&self, app_id: u32, game_name: &str, appdata: &Option<String>) -> (r:
        Vec<GameAchievementSource>)
        ensures
            source_records(r@) == all_candidates(
                self.steam_path(),
                self.steam_user_id(),
                opt_text(*appdata),
                app_id,
                game_name@,
            ),
    {
        let a = source_candidates(
            AchievementSourceType::LibraryCache,
            &self.steam_path,
            &self.steam_user_id,
            appdata,
            app_id,
            game_name,
        );
        let b = source_candidates(
            AchievementSourceType::Goldberg,
            &self.steam_path,
            &self.steam_user_id,
            appdata,
            app_id,
            game_name,
        );
        let c = source_candidates(
            AchievementSourceType::OnlineFix,
            &self.steam_path,
            &self.steam_user_id,
            appdata,
            app_id,
            game_name,
        );
        join_candidates(a, b, c)
    }

    /// Finds the file to watch for a game by discovery: the first candidate
    /// that exists. `exists` says of each candidate of
    /// `discovery_candidates`, in order, whether its file exists.
    pub fn find_achievement_source(
        &self,
        app_id: u32,
        game_name: &str,
        appdata: &Option<String>,
        exists: &Vec<bool>,
    ) -> (r: Option<GameAchievementSource>)
        ensures
            source_view(r) == first_existing(
                all_candidates(
                    self.steam_path(),
                    self.steam_user_id(),
                    opt_text(*appdata),
                    app_id,
                    game_name@,
                ),
                exists@,
                0,
            ),
    {
        let candidates = self.discovery_candidates(app_id, game_name, appdata);
        pick_existing(&candidates, exists)
    }

    /// Finds the file of one kind of source for a game: the first of its
    /// candidates that exists. `exists` says of each candidate of
    /// `source_candidates`, in order, whether its file exists.
    pub fn find_specific_source(
        &self,
        app_id: u32,
        game_name: &str,
        source_type: AchievementSourceType,
        appdata: &Option<String>,
        exists: &Vec<bool>,
    ) -> (r: Option<GameAchievementSource>)
        ensures
            source_view(r) == first_existing(
                candidates_of(
                    source_type,
                    self.steam_path(),
                    self.steam_user_id(),
                    opt_text(*appdata),
                    app_id,
                    game_name@,
                ),
                exists@,
                0,
            ),
    {
        let candidates = source_candidates(
            source_type,
            &self.steam_path,
            &self.steam_user_id,
            appdata,
            app_id,
            game_name,
        );
        pick_existing(&candidates, exists)
    }

    /// The places to look at when a game starts: those of the provider that
    /// the game is bound to; none for a game that is excluded or not
    /// tracked.
    pub fn watch_candidates(
        &self,
        db: &AchievementDatabase,
        app_id: u32,
        game_name: &str,
        appdata: &Option<String>,
    ) -> (r: Vec<GameAchievementSource>)
        ensures
            source_records(r@) == bound_candidates(
                db,
                self.steam_path(),
                self.steam_user_id(),
                opt_text(*appdata),
                app_id,
                game_name@,
            ),
    {
        if db.is_excluded(app_id) {
            return Vec::new();
        }
        let rows = db.get_game_achievements(app_id);
        if rows.len() == 0 {
            return Vec::new();
        }
        match AchievementSourceType::of_tag(rows[0].source) {
            Some(t) => source_candidates(
                t,
                &self.steam_path,
                &self.steam_user_id,
                appdata,
                app_id,
                game_name,
            ),
            None => Vec::new(),
        }
    }

    /// A game started. An excluded game and a game without rows are left
    /// alone. Else the file of the game's provider is watched if it exists,
    /// and the game waits if it does not. `exists` says of each candidate of
    /// `watch_candidates`, in order, whether its file exists.
    pub fn start_watching_game(
        &mut self,
        db: &AchievementDatabase,
        app_id: u32,
        game_name: &str,
        appdata: &Option<String>,
        exists: &Vec<bool>,
        now: u64,
    ) -> (r: WatchDecision)
        requires
            old(self).wf(),
        ensures
            final(self).wf(),
            final(self).same_setup(old(self)),
            forall|id: u32| id != app_id ==> final(self).watching(id) == old(self).watching(id),
            forall|id: u32| id != app_id ==> final(self).waiting(id) == old(self).waiting(id),
            !is_tracked(db, app_id) ==> r is Ignored && final(self).watched() == old(self).watched()
                && final(self).pending() == old(self).pending(),
            is_tracked(db, app_id) ==> match first_existing(
                bound_candidates(
                    db,
                    old(self).steam_path(),
                    old(self).steam_user_id(),
                    opt_text(*appdata),
                    app_id,
                    game_name@,
                ),
                exists@,
                0,
            ) {
                Some(s) => r matches WatchDecision::Watching(source) && source@ == s && final(self).watching(app_id) == Some(s) && final(self).pending() == old(self).pending(),
                None => r is Pending && final(self).waiting(app_id) == Some(
                    PendingRecord { app_id, game_name: game_name@, last_probe: now },
                ) && final(self).watched() == old(self).watched(),
            },
    {
        if db.is_excluded(app_id) {
            return WatchDecision::Ignored;
        }
        if db.get_game_achievements(app_id).len() == 0 {
            return WatchDecision::Ignored;
        }
        let candidates = self.watch_candidates(db, app_id, game_name, appdata);
        match pick_existing(&candidates, exists) {
            Some(source) => {
                proof {
                    lemma_first_existing(source_records(candidates@), exists@, 0);
                }
                self.set_watch(source.duplicate());
                WatchDecision::Watching(source)
            },
            None => {
                self.set_pending(app_id, game_name.to_owned(), now);
                WatchDecision::Pending
            },
        }
    }

    /// The waiting games that are due for another look at `now`.
    pub fn check_pending_games(&self, now: u64) -> (r: Vec<PendingGame>)
        ensures
            pending_records(r@) == due_games(self.pending(), now, self.pending().len()),
    {
        let mut out: Vec<PendingGame> = Vec::new();
        let mut i: usize = 0;
        while i < self.pending.len()
            invariant
                i <= self.pending@.len(),
                pending_records(out@) == due_games(self.pending(), now, i as nat),
            decreases self.pending@.len() - i,
        {
            let p = &self.pending[i];
            if now >= p.last_probe && now - p.last_probe >= 600 {
                out.push(
                    PendingGame {
                        app_id: p.app_id,
                        game_name: p.game_name.clone(),
                        last_probe: p.last_probe,
                    },
                );
            }
            i = i + 1;
        }
        out
    }

    /// Another look for a waiting game, by discovery. Where a file exists
    /// now, the game moves from the waiting to the watched; else the look is
    /// noted. A game that does not wait is left alone. `exists` says of each
    /// candidate of `discovery_candidates`, in order, whether its file exists.
    pub fn retry_pending_game(
        &mut self,
        app_id: u32,
        appdata: &Option<String>,
        exists: &Vec<bool>,
        now: u64,
    ) -> (r: WatchDecision)
        requires
            old(self).wf(),
        ensures
            final(self).wf(),
            final(self).same_setup(old(self)),
            forall|id: u32| id != app_id ==> final(self).watching(id) == old(self).watching(id),
            forall|id: u32| id != app_id ==> final(self).waiting(id) == old(self).waiting(id),
            match old(self).waiting(app_id) {
                None => r is Ignored && final(self).watched() == old(self).watched() && final(self).pending() == old(self).pending(),
                Some(p) => match first_existing(
                    all_candidates(
                        old(self).steam_path(),
                        old(self).steam_user_id(),
                        opt_text(*appdata),
                        app_id,
                        p.game_name,
                    ),
                    exists@,
                    0,
                ) {
                    Some(s) => r matches WatchDecision::Watching(source) && source@ == s && final(self).watching(app_id) == Some(s) && final(self).waiting(app_id) is None,
                    None => r is Pending && final(self).waiting(app_id) == Some(
                        PendingRecord { app_id, game_name: p.game_name, last_probe: now },
                    ) && final(self).watched() == old(self).watched(),
                },
            },
    {
        let name = match self.find_pending(app_id) {
            Some(i) => {
                self.pending[i].game_name.clone()
            },
            None => {
                return WatchDecision::Ignored;
            },
        };
        match self.find_achievement_source(app_id, name.as_str(), appdata, exists) {
            Some(source) => {
                proof {
                    let candidates = all_candidates(
                        self.steam_path(),
                        self.steam_user_id(),
                        opt_text(*appdata),
                        app_id,
                        name@,
                    );
                    lemma_first_existing(candidates, exists@, 0);
                    lemma_candidates_game(
                        self.steam_path(),
                        self.steam_user_id(),
                        opt_text(*appdata),
                        app_id,
                        name@,
                    );
                }
                self.clear_pending(app_id);
                self.set_watch(source.duplicate());
                WatchDecision::Watching(source)
            },
            None => {
                self.set_pending(app_id, name, now);
                WatchDecision::Pending
            },
        }
    }
}

/// A candidate that `first_existing` finds is a candidate of the list.
pub proof fn lemma_first_existing(candidates: Seq<SourceRecord>, exists: Seq<bool>, from: int)
    requires
        0 <= from,
    ensures
        first_existing(candidates, exists, from) matches Some(s) ==> candidates.contains(s),
    decreases candidates.len() - from,
{
    if from < candidates.len() && !(from < exists.len() && exists[from]) {
        lemma_first_existing(candidates, exists, from + 1);
    }
}

/// Every candidate of a game is a file of that game.
pub proof fn lemma_candidates_game(
    steam_path: PathRecord,
    user_id: Option<Seq<char>>,
    appdata: Option<Seq<char>>,
    app_id: u32,
    game_name: Seq<char>,
)
    ensures
        forall|s: SourceRecord|
            all_candidates(steam_path, user_id, appdata, app_id, game_name).contains(s) ==> s.app_id
                == app_id,
        forall|t: AchievementSourceType, s: SourceRecord|
            candidates_of(t, steam_path, user_id, appdata, app_id, game_name).contains(s)
                ==> s.app_id == app_id,
{
    let a = librarycache_candidates(steam_path, user_id, app_id, game_name);
}

// ---------------------------------------------------------------------------
// What a watched file says is unlocked
// ---------------------------------------------------------------------------
/// An achievement that a file says is unlocked, as a mathematical value.
pub struct UnlockRecord {
    pub achievement_id: Seq<char>,
    pub unlock_time: i64,
}

/// An achievement that a file says is unlocked, and since when.
#[derive(Debug, Clone)]
pub struct UnlockEntry {
    pub achievement_id: String,
    pub unlock_time: i64,
}

impl View for UnlockEntry {
    type V = UnlockRecord;

    open spec fn view(&self) -> UnlockRecord {
        UnlockRecord { achievement_id: self.achievement_id@, unlock_time: self.unlock_time }
    }
}

/// The entries of a list, each by its view.
pub open spec fn unlock_records(list: Seq<UnlockEntry>) -> Seq<UnlockRecord> {
    Seq::new(list.len(), |i: int| list[i]@)
}

/// A time, or `now` where it is not known.
pub open spec fn time_or(t: Option<i64>, now: i64) -> i64 {
    match t {
        Some(t) => t,
        None => now,
    }
}

/// The unlocked among the first `n` items of a list of the platform's cache.
pub open spec fn list_unlocks(items: Seq<JsonModel>, list: CacheList, now: i64, n: nat) -> Seq<
    UnlockRecord,
>
    decreases n,
{
    if n == 0 || n > items.len() {
        Seq::empty()
    } else {
        let before = list_unlocks(items, list, now, (n - 1) as nat);
        match item_status(items[n - 1], list) {
            Some(s) => if s.achieved {
                before.push(
                    UnlockRecord { achievement_id: s.key, unlock_time: time_or(s.unlock_time, now) },
                )
            } else {
                before
            },
            None => before,
        }
    }
}

/// The unlocked of the platform's cache: those of the highlights, then those
/// of the unlocked hidden.
pub open spec fn cache_unlocks(data: JsonModel, now: i64) -> Seq<UnlockRecord> {
    let highlight = cache_list(data, CacheList::Highlight);
    let hidden = cache_list(data, CacheList::AchievedHidden);
    list_unlocks(highlight, CacheList::Highlight, now, highlight.len()) + list_unlocks(
        hidden,
        CacheList::AchievedHidden,
        now,
        hidden.len(),
    )
}

/// The unlocked among the first `n` members of the JSON emulator's file.
pub open spec fn member_unlocks(members: Seq<(Seq<char>, JsonModel)>, now: i64, n: nat) -> Seq<
    UnlockRecord,
>
    decreases n,
{
    if n == 0 || n > members.len() {
        Seq::empty()
    } else {
        let before = member_unlocks(members, now, (n - 1) as nat);
        if item_flag(members[n - 1].1, "earned"@, false) {
            before.push(
                UnlockRecord {
                    achievement_id: members[n - 1].0,
                    unlock_time: time_or(item_time(members[n - 1].1, "earned_time"@), now),
                },
            )
        } else {
            before
        }
    }
}

/// The unlocked among the first `n` sections of the INI emulator's file:
/// each unlocked section that is bound to a schema entry, under the key of
/// that entry.
pub open spec fn section_unlocks(
    sections: Seq<SectionRecord>,
    schema: Seq<SchemaEntry>,
    now: i64,
    n: nat,
) -> Seq<UnlockRecord>
    decreases n,
{
    if n == 0 || n > sections.len() {
        Seq::empty()
    } else {
        let before = section_unlocks(sections, schema, now, (n - 1) as nat);
        let s = sections[n - 1];
        match binding(s.name, schema) {
            Some(i) => if s.achieved {
                before.push(
                    UnlockRecord {
                        achievement_id: schema[i].name,
                        unlock_time: time_or(s.timestamp, now),
                    },
                )
            } else {
                before
            },
            None => before,
        }
    }
}

/// What a file of a source says is unlocked. A time that the file does not
/// give is `now`.
pub open spec fn unlocks_in(
    source_type: AchievementSourceType,
    text: Seq<char>,
    schema: Seq<SchemaEntry>,
    now: i64,
) -> Result<Seq<UnlockRecord>, EngineError> {
    match source_type {
        AchievementSourceType::LibraryCache => match document_of(text) {
            Some(doc) => match cache_data(doc) {
                Some(data) => Ok(cache_unlocks(data, now)),
                None => Err(EngineError::Parse),
            },
            None => Err(EngineError::Parse),
        },
        AchievementSourceType::Goldberg => match document_of(text) {
            Some(doc) => match doc.members() {
                Some(members) => Ok(member_unlocks(members, now, members.len())),
                None => Err(EngineError::Parse),
            },
            None => Err(EngineError::Parse),
        },
        AchievementSourceType::OnlineFix => Ok(
            section_unlocks(ini_sections(text), schema, now, ini_sections(text).len()),
        ),
        AchievementSourceType::SteamWebApi => Ok(Seq::empty()),
    }
}

/// Adds the unlocked of one list of the platform's cache.
fn collect_list(out: &mut Vec<UnlockEntry>, data: &JsonValue, list: CacheList, now: i64)
    ensures
        unlock_records(final(out)@) == unlock_records(old(out)@) + list_unlocks(
            cache_list(data@, list),
            list,
            now,
            cache_list(data@, list).len(),
        ),
{
    let name = match list {
        CacheList::Highlight => "vecHighlight",
        CacheList::Unachieved => "vecUnachieved",
        CacheList::AchievedHidden => "vecAchievedHidden",
    };
    let ghost start = unlock_records(out@);
    let items = match data.get(name) {
        Some(v) => match v.as_array() {
            Some(items) => items,
            None => {
                return ;
            },
        },
        None => {
            return ;
        },
    };
    let mut i: usize = 0;
    while i < items.len()
        invariant
            i <= items@.len(),
            unlock_records(out@) == start + list_unlocks(trees(items@), list, now, i as nat),
        decreases items@.len() - i,
    {
        match read_status(&items[i], list) {
            Some(status) => {
                if status.achieved {
                    let ghost before = unlock_records(out@);
                    let entry = UnlockEntry {
                        achievement_id: status.key,
                        unlock_time: match status.unlock_time {
                            Some(t) => t,
                            None => now,
                        },
                    };
                    out.push(entry);
                    assert(start + list_unlocks(trees(items@), list, now, i as nat).push(entry@)
                        == before.push(entry@));
                }
            },
            None => {},
        }
        i = i + 1;
    }
}

/// What a file of a source says is unlocked.
pub fn extract_unlocks(
    source_type: AchievementSourceType,
    contents: &str,
    schema: &Vec<SteamAchievementSchema>,
    now: i64,
) -> (r: Result<Vec<UnlockEntry>, EngineError>)
    ensures
        match r {
            Ok(list) => unlocks_in(source_type, contents@, schema_view(schema@), now) == Ok::<
                Seq<UnlockRecord>,
                EngineError,
            >(unlock_records(list@)),
            Err(e) => unlocks_in(source_type, contents@, schema_view(schema@), now) == Err::<
                Seq<UnlockRecord>,
                EngineError,
            >(e),
        },
{
    let mut out: Vec<UnlockEntry> = Vec::new();
    assert(unlock_records(out@) == Seq::<UnlockRecord>::empty());
    match source_type {
        AchievementSourceType::LibraryCache => {
            let doc = match parse(contents) {
                Ok(doc) => doc,
                Err(e) => {
                    return Err(e);
                },
            };
            let data = match find_cache_data(&doc) {
                Some(data) => data,
                None => {
                    return Err(EngineError::Parse);
                },
            };
            collect_list(&mut out, data, CacheList::Highlight, now);
            collect_list(&mut out, data, CacheList::AchievedHidden, now);
            Ok(out)
        },
        AchievementSourceType::Goldberg => {
            let doc = match parse(contents) {
                Ok(doc) => doc,
                Err(e) => {
                    return Err(e);
                },
            };
            let members = match doc.as_object() {
                Some(members) => members,
                None => {
                    return Err(EngineError::Parse);
                },
            };
            let ghost ms = member_trees(members@);
            let mut i: usize = 0;
            while i < members.len()
                invariant
                    i <= members@.len(),
                    ms == member_trees(members@),
                    unlock_records(out@) == member_unlocks(ms, now, i as nat),
                decreases members@.len() - i,
            {
                let key = &members[i].0;
                let data = &members[i].1;
                let earned = match data.get("earned") {
                    Some(v) => match v.as_bool() {
                        Some(b) => b,
                        None => false,
                    },
                    None => false,
                };
                if earned {
                    let time = match data.get("earned_time") {
                        Some(v) => match v.as_i64() {
                            Some(t) => if t > 0 {
                                t
                            } else {
                                now
                            },
                            None => now,
                        },
                        None => now,
                    };
                    let ghost before = unlock_records(out@);
                    let entry = UnlockEntry { achievement_id: key.clone(), unlock_time: time };
                    out.push(entry);
                }
                i = i + 1;
            }
            Ok(out)
        },
        AchievementSourceType::OnlineFix => {
            let sections = parse_ini(contents);
            let lex = Lexicon::new();
            let ghost secs = section_records(sections@);
            let ghost entries = schema_view(schema@);
            let mut i: usize = 0;
            while i < sections.len()
                invariant
                    i <= sections@.len(),
                    lex.wf(),
                    secs == section_records(sections@),
                    entries == schema_view(schema@),
                    unlock_records(out@) == section_unlocks(secs, entries, now, i as nat),
                decreases sections@.len() - i,
            {
                let s = &sections[i];
                if s.achieved {
                    match lex.bind(&chars_of(s.name.as_str()), schema) {
                        Some(k) => {
                            proof {
                                lemma_binding_in_range(s.name@, entries);
                            }
                            let entry = UnlockEntry {
                                achievement_id: schema[k].name.clone(),
                                unlock_time: match s.timestamp {
                                    Some(t) => t,
                                    None => now,
                                },
                            };
                            out.push(entry);
                        },
                        None => {},
                    }
                }
                i = i + 1;
            }
            Ok(out)
        },
        AchievementSourceType::SteamWebApi => Ok(out),
    }
}

// ---------------------------------------------------------------------------
// What a reparse unlocks
// ---------------------------------------------------------------------------
/// An unlock that the engine publishes, as a mathematical value.
pub struct UnlockEventRecord {
    pub app_id: u32,
    pub game_name: Seq<char>,
    pub achievement_id: Seq<char>,
    pub display_name: Seq<char>,
    pub description: Seq<char>,
    pub icon_url: Option<Seq<char>>,
    pub unlock_time: i64,
    pub source: ProviderTag,
    pub global_unlock_percentage: Option<Seq<char>>,
}

/// An unlock that the engine publishes: a row went from locked to unlocked.
#[derive(Debug, Clone)]
pub struct AchievementUnlockEvent {
    pub app_id: u32,
    pub game_name: String,
    pub achievement_id: String,
    pub display_name: String,
    pub description: String,
    pub icon_url: Option<String>,
    pub unlock_time: i64,
    pub source: ProviderTag,
    pub global_unlock_percentage: Option<String>,
}

impl View for AchievementUnlockEvent {
    type V = UnlockEventRecord;

    open spec fn view(&self) -> UnlockEventRecord {
        UnlockEventRecord {
            app_id: self.app_id,
            game_name: self.game_name@,
            achievement_id: self.achievement_id@,
            display_name: self.display_name@,
            description: self.description@,
            icon_url: opt_text(self.icon_url),
            unlock_time: self.unlock_time,
            source: self.source,
            global_unlock_percentage: opt_text(self.global_unlock_percentage),
        }
    }
}

/// The events of a list, each by its view.
pub open spec fn event_records(list: Seq<AchievementUnlockEvent>) -> Seq<UnlockEventRecord> {
    Seq::new(list.len(), |i: int| list[i]@)
}

/// The place of the row that the first `n` rows of a table hold for a game
/// and a key: the last of them, which is the row written last where rows of
/// several providers have the key.
pub open spec fn row_for_key(rows: Seq<AchievementRecord>, app_id: u32, key: Seq<char>, n: nat)
    -> Option<int>
    decreases n,
{
    if n == 0 || n > rows.len() {
        None
    } else if rows[n - 1].app_id == app_id && rows[n - 1].achievement_id == key {
        Some(n - 1)
    } else {
        row_for_key(rows, app_id, key, (n - 1) as nat)
    }
}

/// A row after its unlock at `unlock_time` was noted at `now`; the time of
/// its last write is the later of the row's and `now`. A row without a
/// global rate takes the rate of its key, where rates are at hand.
pub open spec fn unlocked_row(
    row: AchievementRecord,
    unlock_time: i64,
    rates: Option<Seq<RateRecord>>,
    now: i64,
) -> AchievementRecord {
    AchievementRecord {
        achieved: true,
        unlock_time: Some(unlock_time),
        last_updated: crate::achievements::later(row.last_updated, now),
        global_unlock_percentage: if row.global_unlock_percentage is Some {
            row.global_unlock_percentage
        } else {
            rate_of(rates, row.achievement_id)
        },
        ..row
    }
}

/// The event of a row that was unlocked.
pub open spec fn event_of(row: AchievementRecord, game_name: Seq<char>, source: ProviderTag)
    -> UnlockEventRecord {
    UnlockEventRecord {
        app_id: row.app_id,
        game_name,
        achievement_id: row.achievement_id,
        display_name: row.display_name,
        description: row.description,
        icon_url: row.icon_url,
        unlock_time: match row.unlock_time {
            Some(t) => t,
            None => 0,
        },
        source,
        global_unlock_percentage: row.global_unlock_percentage,
    }
}

/// One step of a reparse: if the game has a row for the entry's key and the
/// row is locked, the row is unlocked and an event is due; else nothing
/// happens.
pub open spec fn unlock_step(
    rows: Seq<AchievementRecord>,
    app_id: u32,
    game_name: Seq<char>,
    source: ProviderTag,
    entry: UnlockRecord,
    rates: Option<Seq<RateRecord>>,
    now: i64,
) -> (Seq<AchievementRecord>, Option<UnlockEventRecord>) {
    match row_for_key(rows, app_id, entry.achievement_id, rows.len()) {
        Some(i) => if !rows[i].achieved {
            let unlocked = unlocked_row(rows[i], entry.unlock_time, rates, now);
            (rows.update(i, unlocked), Some(event_of(unlocked, game_name, source)))
        } else {
            (rows, None)
        },
        None => (rows, None),
    }
}

/// A reparse over the first `n` entries: the table after the steps, and the
/// events in the order of the entries.
pub open spec fn unlock_run(
    rows: Seq<AchievementRecord>,
    app_id: u32,
    game_name: Seq<char>,
    source: ProviderTag,
    entries: Seq<UnlockRecord>,
    rates: Option<Seq<RateRecord>>,
    now: i64,
    n: nat,
) -> (Seq<AchievementRecord>, Seq<UnlockEventRecord>)
    decreases n,
{
    if n == 0 || n > entries.len() {
        (rows, Seq::empty())
    } else {
        let (table, events) = unlock_run(
            rows,
            app_id,
            game_name,
            source,
            entries,
            rates,
            now,
            (n - 1) as nat,
        );
        let (after, event) = unlock_step(
            table,
            app_id,
            game_name,
            source,
            entries[n - 1],
            rates,
            now,
        );
        match event {
            Some(e) => (after, events.push(e)),
            None => (after, events),
        }
    }
}

/// The place of the row that a table holds for a game and a key.
fn find_row_for_key(rows: &Vec<Achievement>, app_id: u32, key: &String) -> (r: Option<usize>)
    ensures
        match r {
            Some(i) => i < rows@.len() && row_for_key(records(rows@), app_id, key@, rows@.len())
                == Some(i as int),
            None => row_for_key(records(rows@), app_id, key@, rows@.len()) is None,
        },
{
    let mut n: usize = rows.len();
    while n > 0
        invariant
            n <= rows@.len(),
            row_for_key(records(rows@), app_id, key@, rows@.len()) == row_for_key(
                records(rows@),
                app_id,
                key@,
                n as nat,
            ),
        decreases n,
    {
        if rows[n - 1].app_id == app_id && rows[n - 1].achievement_id == *key {
            return Some(n - 1);
        }
        n = n - 1;
    }
    None
}

/// Whether an entry would unlock a row that has no global rate: the game
/// has a row for the entry's key, and the row is locked and without a rate.
pub open spec fn entry_lacks_rate(rows: Seq<AchievementRecord>, app_id: u32, entry: UnlockRecord)
    -> bool {
    match row_for_key(rows, app_id, entry.achievement_id, rows.len()) {
        Some(i) => !rows[i].achieved && rows[i].global_unlock_percentage is None,
        None => false,
    }
}

/// Whether a reparse has use for the global rates of the game: one of the
/// entries would unlock a row that has no global rate.
pub open spec fn lacks_rate(rows: Seq<AchievementRecord>, app_id: u32, entries: Seq<UnlockRecord>)
    -> bool {
    exists|k: int| 0 <= k < entries.len() && entry_lacks_rate(rows, app_id, #[trigger] entries[k])
}

/// Whether the global rates of the game should be asked for before the
/// entries of a reparse are compared with the store.
pub fn needs_rates(db: &AchievementDatabase, app_id: u32, entries: &Vec<UnlockEntry>) -> (r: bool)
    ensures
        r == lacks_rate(db@, app_id, unlock_records(entries@)),
{
    let mut i: usize = 0;
    while i < entries.len()
        invariant
            i <= entries@.len(),
            forall|k: int|
                0 <= k < i ==> !entry_lacks_rate(
                    db@,
                    app_id,
                    #[trigger] unlock_records(entries@)[k],
                ),
        decreases entries@.len() - i,
    {
        assert(unlock_records(entries@)[i as int] == entries@[i as int]@);
        match find_row_for_key(db.rows(), app_id, &entries[i].achievement_id) {
            Some(k) => {
                let row = &db.rows()[k];
                assert(row@ == db@[k as int]);
                if !row.achieved && row.global_unlock_percentage.is_none() {
                    return true;
                }
            },
            None => {},
        }
        i = i + 1;
    }
    false
}

/// Compares what a watched file says is unlocked with the store: each entry
/// whose row is locked unlocks the row and gives an event. Returns the
/// events in the order of the entries.
pub fn check_for_unlocks(
    db: &mut AchievementDatabase,
    app_id: u32,
    game_name: &str,
    source_type: AchievementSourceType,
    entries: &Vec<UnlockEntry>,
    rates: Option<&Vec<GlobalRate>>,
    now: i64,
) -> (events: Vec<AchievementUnlockEvent>)
    requires
        old(db).wf(),
    ensures
        final(db).wf(),
        final(db).exclusions() == old(db).exclusions(),
        final(db).next_row_id() == old(db).next_row_id(),
        (final(db)@, event_records(events@)) == unlock_run(
            old(db)@,
            app_id,
            game_name@,
            source_type.provider(),
            unlock_records(entries@),
            rates_view(rates),
            now,
            entries@.len(),
        ),
        crate::laws::later_state(old(db)@, final(db)@),
        forall|j: int|
            0 <= j < events@.len() ==> crate::laws::newly_unlocked(
                old(db)@,
                final(db)@,
                app_id,
                (#[trigger] event_records(events@)[j]).achievement_id,
            ),
        forall|j: int, k: int|
            0 <= j < k < events@.len() ==> (#[trigger] event_records(events@)[j]).achievement_id
                != (#[trigger] event_records(events@)[k]).achievement_id,
{
    proof {
        crate::laws::lemma_unlock_run(
            db@,
            app_id,
            game_name@,
            source_type.provider(),
            unlock_records(entries@),
            rates_view(rates),
            now,
            entries@.len(),
        );
    }
    let mut events: Vec<AchievementUnlockEvent> = Vec::new();
    let mut i: usize = 0;
    while i < entries.len()
        invariant
            i <= entries@.len(),
            db.wf(),
            db.exclusions() == old(db).exclusions(),
            db.next_row_id() == old(db).next_row_id(),
            (db@, event_records(events@)) == unlock_run(
                old(db)@,
                app_id,
                game_name@,
                source_type.provider(),
                unlock_records(entries@),
                rates_view(rates),
                now,
                i as nat,
            ),
        decreases entries@.len() - i,
    {
        let entry = &entries[i];
        let ghost table = db@;
        let found = find_row_for_key(db.rows(), app_id, &entry.achievement_id);
        match found {
            Some(k) => {
                let row = &db.rows()[k];
                if !row.achieved {
                    proof {
                        lemma_row_position(table, db.next_row_id(), k as int);
                    }
                    let unlocked = Achievement {
                        id: row.id,
                        app_id: row.app_id,
                        game_name: row.game_name.clone(),
                        achievement_id: row.achievement_id.clone(),
                        display_name: row.display_name.clone(),
                        description: row.description.clone(),
                        icon_url: copy_opt_text(&row.icon_url),
                        icon_gray_url: copy_opt_text(&row.icon_gray_url),
                        hidden: row.hidden,
                        achieved: true,
                        unlock_time: Some(entry.unlock_time),
                        source: row.source,
                        last_updated: crate::achievements::later_of(row.last_updated, now),
                        global_unlock_percentage: match &row.global_unlock_percentage {
                            Some(p) => Some(p.clone()),
                            None => find_rate(rates, &row.achievement_id),
                        },
                    };
                    assert(unlocked@ == unlocked_row(
                        table[k as int],
                        entry.unlock_time,
                        rates_view(rates),
                        now,
                    ));
                    let written = db.insert_or_update_achievement(&unlocked);
                    let ghost before = event_records(events@);
                    let event = AchievementUnlockEvent {
                        app_id: unlocked.app_id,
                        game_name: game_name.to_owned(),
                        achievement_id: unlocked.achievement_id.clone(),
                        display_name: unlocked.display_name.clone(),
                        description: unlocked.description.clone(),
                        icon_url: copy_opt_text(&unlocked.icon_url),
                        unlock_time: entry.unlock_time,
                        source: source_type.tag(),
                        global_unlock_percentage: copy_opt_text(&unlocked.global_unlock_percentage),
                    };
                    events.push(event);
                    assert(event_records(events@) == before.push(
                        event_of(unlocked@, game_name@, source_type.provider()),
                    ));
                }
            },
            None => {},
        }
        i = i + 1;
    }
    events
}

// ---------------------------------------------------------------------------
// The debounce of file events
// ---------------------------------------------------------------------------
/// The kinds of events that a watch on a file reports.
#[derive(Debug, Clone, Copy, PartialEq, Eq, Structural)]
pub enum FileEventKind {
    Any,
    Access,
    Create,
    Modify,
    Remove,
    Other,
}

/// Whether an event of this kind asks for a reparse.
pub open spec fn asks_reparse(kind: FileEventKind) -> bool {
    kind == FileEventKind::Modify || kind == FileEventKind::Create || kind == FileEventKind::Access
}

/// The quiet time after the last event before a reparse runs, in
/// milliseconds.
pub const DEBOUNCE_MS: u64 = 1000;

/// When a reparse is due after an event at `now`: one quiet time later.
pub open spec fn due_after(now: u64) -> u64 {
    if now > u64::MAX - DEBOUNCE_MS {
        u64::MAX
    } else {
        (now + DEBOUNCE_MS) as u64
    }
}

/// The timer after an event: an event that asks for a reparse sets it anew.
pub open spec fn after_event(deadline: Option<u64>, kind: FileEventKind, now: u64) -> Option<u64> {
    if asks_reparse(kind) {
        Some(due_after(now))
    } else {
        deadline
    }
}

/// The timer after a look at the clock, and whether a reparse runs: it runs
/// when the timer is set and has run out, and the timer is then cleared.
pub open spec fn after_poll(deadline: Option<u64>, now: u64) -> (Option<u64>, bool) {
    match deadline {
        Some(t) => if now >= t {
            (None, true)
        } else {
            (deadline, false)
        },
        None => (None, false),
    }
}

/// The single-slot timer that collapses a burst of file events into one
/// reparse. Times are in milliseconds.
pub struct Debouncer {
    deadline: Option<u64>,
}

impl Debouncer {
    /// When the reparse is due, if one is due.
    pub closed spec fn deadline(&self) -> Option<u64> {
        self.deadline
    }

    /// A timer that is not set.
    pub fn new() -> (r: Debouncer)
        ensures
            r.deadline() is None,
    {
        Debouncer { deadline: None }
    }

    /// Takes an event of the watched file at `now`.
    pub fn on_event(&mut self, kind: FileEventKind, now: u64)
        ensures
            final(self).deadline() == after_event(old(self).deadline(), kind, now),
    {
        let asks = match kind {
            FileEventKind::Modify => true,
            FileEventKind::Create => true,
            FileEventKind::Access => true,
            _ => false,
        };
        if asks {
            self.deadline = Some(
                if now > u64::MAX - DEBOUNCE_MS {
                    u64::MAX
                } else {
                    now + DEBOUNCE_MS
                },
            );
        }
    }

    /// Looks at the clock. Returns whether a reparse is to run now.
    pub fn poll(&mut self, now: u64) -> (run: bool)
        ensures
            (final(self).deadline(), run) == after_poll(old(self).deadline(), now),
    {
        match self.deadline {
            Some(t) => {
                if now >= t {
                    self.deadline = None;
                    true
                } else {
                    false
                }
            },
            None => false,
        }
    }

    /// When the reparse is due, if one is due.
    pub fn next_deadline(&self) -> (r: Option<u64>)
        ensures
            r == self.deadline(),
    {
        self.deadline
    }
}

// ---------------------------------------------------------------------------
// When a watcher gives up
// ---------------------------------------------------------------------------
/// How a reparse ended.
#[derive(Debug, Clone, Copy, PartialEq, Eq, Structural)]
pub enum ReparseOutcome {
    /// The file was read and understood.
    Parsed,
    /// The file was read, but not understood.
    ParseError,
    /// The file is not there.
    FileMissing,
}

/// What a watcher does after a reparse.
#[derive(Debug, Clone, Copy, PartialEq, Eq, Structural)]
pub enum WatcherVerdict {
    /// Wait for the next event.
    Idle,
    /// Look for the file again at this time, in milliseconds.
    LookAgain(u64),
    /// Give up: the file has been gone for a quiet time.
    Exit,
}

/// Since when the file is missing, and what the watcher does, after a
/// reparse at `now`: a file that is there clears the state; a file that is
/// missing is looked for again one quiet time after it was first missed,
/// and the watcher gives up if it is still missing then.
pub open spec fn after_reparse(missing_since: Option<u64>, outcome: ReparseOutcome, now: u64) -> (
    Option<u64>,
    WatcherVerdict,
) {
    if outcome != ReparseOutcome::FileMissing {
        (None, WatcherVerdict::Idle)
    } else {
        match missing_since {
            Some(t) => if now >= due_after(t) {
                (missing_since, WatcherVerdict::Exit)
            } else {
                (missing_since, WatcherVerdict::LookAgain(due_after(t)))
            },
            None => (Some(now), WatcherVerdict::LookAgain(due_after(now))),
        }
    }
}

/// The health of a watched file.
pub struct SourceHealth {
    missing_since: Option<u64>,
}

impl SourceHealth {
    /// Since when the file is missing, if it is.
    pub closed spec fn missing_since(&self) -> Option<u64> {
        self.missing_since
    }

    /// A file that is there.
    pub fn new() -> (r: SourceHealth)
        ensures
            r.missing_since() is None,
    {
        SourceHealth { missing_since: None }
    }

    /// Takes the end of a reparse at `now` and tells what the watcher does.
    pub fn on_reparse(&mut self, outcome: ReparseOutcome, now: u64) -> (r: WatcherVerdict)
        ensures
            (final(self).missing_since(), r) == after_reparse(
                old(self).missing_since(),
                outcome,
                now,
            ),
    {
        match outcome {
            ReparseOutcome::FileMissing => {
                match self.missing_since {
                    Some(t) => {
                        let due = if t > u64::MAX - DEBOUNCE_MS {
                            u64::MAX
                        } else {
                            t + DEBOUNCE_MS
                        };
                        if now >= due {
                            WatcherVerdict::Exit
                        } else {
                            WatcherVerdict::LookAgain(due)
                        }
                    },
                    None => {
                        self.missing_since = Some(now);
                        WatcherVerdict::LookAgain(
                            if now > u64::MAX - DEBOUNCE_MS {
                                u64::MAX
                            } else {
                                now + DEBOUNCE_MS
                            },
                        )
                    },
                }
            },
            _ => {
                self.missing_since = None;
                WatcherVerdict::Idle
            },
        }
    }
}

impl AchievementWatcher {
    /// The watched file of a game is lost: the game is watched no longer and
    /// waits for a file to appear. A game that was not watched is left
    /// alone.
    pub fn source_lost(&mut self, app_id: u32, now: u64)
        requires
            old(self).wf(),
        ensures
            final(self).wf(),
            final(self).same_setup(old(self)),
            final(self).watching(app_id) is None,
            forall|id: u32| id != app_id ==> final(self).watching(id) == old(self).watching(id),
            forall|id: u32| id != app_id ==> final(self).waiting(id) == old(self).waiting(id),
            match old(self).watching(app_id) {
                Some(s) => final(self).waiting(app_id) == Some(
                    PendingRecord { app_id, game_name: s.game_name, last_probe: now },
                ),
                None => final(self).waiting(app_id) == old(self).waiting(app_id),
            },
    {
        let name = match self.find_watch(app_id) {
            Some(i) => {
                self.watched[i].game_name.clone()
            },
            None => {
                proof {
                    lemma_no_entry(self.watched(), source_key(), app_id);
                }
                return ;
            },
        };
        self.clear_watch(app_id);
        self.set_pending(app_id, name, now);
    }
}

} // verus!

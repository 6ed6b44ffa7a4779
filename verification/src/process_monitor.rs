//! The monitor of games that the user configured by their executables.

use crate::ludusavi::{LudusaviManager, names_file_of};
use crate::text::{chars_of, ends_with, has_suffix, lowercase, lowercase_of, same_chars};
use vstd::prelude::*;

verus! {

/// A configured game, as a mathematical value.
pub struct GameRecord {
    pub name: Seq<char>,
    pub exe_path: Seq<char>,
}

/// A configured game: its name and the path of its executable.
#[derive(Debug, Clone)]
pub struct GameInfo {
    pub name: String,
    pub exe_path: String,
}

impl View for GameInfo {
    type V = GameRecord;

    open spec fn view(&self) -> GameRecord {
        GameRecord { name: self.name@, exe_path: self.exe_path@ }
    }
}

/// What a look at the processes found, as a mathematical value.
pub enum EventRecord {
    Started(GameRecord),
    Ended(GameRecord),
}

/// What a look at the processes found: a game started, or a game ended.
pub enum GameEvent {
    Started(GameInfo),
    Ended(GameInfo),
}

impl View for GameEvent {
    type V = EventRecord;

    open spec fn view(&self) -> EventRecord {
        match self {
            GameEvent::Started(g) => EventRecord::Started(g@),
            GameEvent::Ended(g) => EventRecord::Ended(g@),
        }
    }
}

/// The view of an optional event.
pub open spec fn event_view(e: Option<GameEvent>) -> Option<EventRecord> {
    match e {
        Some(e) => Some(e@),
        None => None,
    }
}

/// A process that runs, as a mathematical value.
pub struct ProcessRecord {
    pub name: Seq<char>,
    pub exe: Seq<char>,
}

/// A process that runs: its name and the path of its executable, empty
/// where the path is not known.
#[derive(Debug, Clone)]
pub struct RunningProcess {
    pub name: String,
    pub exe: String,
}

impl View for RunningProcess {
    type V = ProcessRecord;

    open spec fn view(&self) -> ProcessRecord {
        ProcessRecord { name: self.name@, exe: self.exe@ }
    }
}

/// The processes of a list, each by its view.
pub open spec fn process_records(list: Seq<RunningProcess>) -> Seq<ProcessRecord> {
    Seq::new(list.len(), |i: int| list[i]@)
}

/// A game as the monitor keeps it, as a mathematical value: with the name
/// of its executable's file in lower case, and whether it runs.
pub struct WatchedRecord {
    pub game: GameRecord,
    pub file_name: Seq<char>,
    pub running: bool,
}

/// A game as the monitor keeps it.
pub struct WatchedGame {
    pub game: GameInfo,
    pub file_name: String,
    pub running: bool,
}

impl View for WatchedGame {
    type V = WatchedRecord;

    open spec fn view(&self) -> WatchedRecord {
        WatchedRecord { game: self.game@, file_name: self.file_name@, running: self.running }
    }
}

/// The games of a list, each by its view.
pub open spec fn watched_records(list: Seq<WatchedGame>) -> Seq<WatchedRecord> {
    Seq::new(list.len(), |i: int| list[i]@)
}

/// Whether a process is the executable of a game: by its name, by its full
/// path, or by the end of its path, all in lower case.
pub open spec fn is_process_of(p: ProcessRecord, g: WatchedRecord) -> bool {
    lowercase_of(p.name) == g.file_name || lowercase_of(p.exe) == lowercase_of(g.game.exe_path)
        || ends_with(lowercase_of(p.exe), seq!['\\'] + g.file_name)
}

/// Whether a game runs, going by the processes.
pub open spec fn runs(processes: Seq<ProcessRecord>, g: WatchedRecord) -> bool {
    exists|i: int| 0 <= i < processes.len() && is_process_of(#[trigger] processes[i], g)
}

/// The first game among `games[from..]` that runs and was not seen running.
pub open spec fn first_started(games: Seq<WatchedRecord>, processes: Seq<ProcessRecord>, from: int)
    -> Option<int>
    decreases games.len() - from,
{
    if from < 0 || from >= games.len() {
        None
    } else if runs(processes, games[from]) && !games[from].running {
        Some(from)
    } else {
        first_started(games, processes, from + 1)
    }
}

/// The first game among `games[from..]` that was seen running and runs no
/// longer.
pub open spec fn first_ended(games: Seq<WatchedRecord>, processes: Seq<ProcessRecord>, from: int)
    -> Option<int>
    decreases games.len() - from,
{
    if from < 0 || from >= games.len() {
        None
    } else if games[from].running && !runs(processes, games[from]) {
        Some(from)
    } else {
        first_ended(games, processes, from + 1)
    }
}

/// A game with another running state.
pub open spec fn with_running(g: WatchedRecord, running: bool) -> WatchedRecord {
    WatchedRecord { running, ..g }
}

/// What a look at the processes gives: the first game that started, if one
/// did; else the first game that ended, if one did. The game's state is
/// noted.
pub open spec fn looked(games: Seq<WatchedRecord>, processes: Seq<ProcessRecord>) -> (
    Seq<WatchedRecord>,
    Option<EventRecord>,
) {
    match first_started(games, processes, 0) {
        Some(i) => (
            games.update(i, with_running(games[i], true)),
            Some(EventRecord::Started(games[i].game)),
        ),
        None => match first_ended(games, processes, 0) {
            Some(i) => (
                games.update(i, with_running(games[i], false)),
                Some(EventRecord::Ended(games[i].game)),
            ),
            None => (games, None),
        },
    }
}

/// The monitor of the configured games.
pub struct ProcessMonitor {
    games: Vec<WatchedGame>,
}

/// Whether a process is the executable of a game.
fn process_matches(p: &RunningProcess, g: &WatchedGame) -> (r: bool)
    ensures
        r == is_process_of(p@, g@),
{
    let name = lowercase(&chars_of(p.name.as_str()));
    let file_name = chars_of(g.file_name.as_str());
    if same_chars(&name, &file_name) {
        return true;
    }
    let exe = lowercase(&chars_of(p.exe.as_str()));
    let path = lowercase(&chars_of(g.game.exe_path.as_str()));
    if same_chars(&exe, &path) {
        return true;
    }
    let mut tail: Vec<char> = Vec::new();
    tail.push('\\');
    let mut rest = file_name;
    tail.append(&mut rest);
    has_suffix(&exe, &tail)
}

/// Whether a game runs, going by the processes.
fn is_running(processes: &Vec<RunningProcess>, g: &WatchedGame) -> (r: bool)
    ensures
        r == runs(process_records(processes@), g@),
{
    let mut i: usize = 0;
    while i < processes.len()
        invariant
            i <= processes@.len(),
            forall|j: int|
                0 <= j < i ==> !is_process_of(#[trigger] process_records(processes@)[j], g@),
        decreases processes@.len() - i,
    {
        assert(process_records(processes@)[i as int] == processes@[i as int]@);
        if process_matches(&processes[i], g) {
            return true;
        }
        i = i + 1;
    }
    false
}

impl ProcessMonitor {
    /// The games as the monitor keeps them.
    pub closed spec fn games(&self) -> Seq<WatchedRecord> {
        watched_records(self.games@)
    }

    /// A monitor of the configured games, none of them seen running. The
    /// name of each executable's file is taken from its path: it is the
    /// lower case of a part that stands in the path.
    pub fn new(game_executables: Vec<GameInfo>) -> (r: ProcessMonitor)
        ensures
            r.games().len() == game_executables@.len(),
            forall|i: int|
                0 <= i < r.games().len() ==> (#[trigger] r.games()[i]).game == game_executables@[i]@
                    && !r.games()[i].running && names_file_of(
                    game_executables@[i]@.exe_path,
                    r.games()[i].file_name,
                ),
    {
        let mut games: Vec<WatchedGame> = Vec::new();
        let mut i: usize = 0;
        while i < game_executables.len()
            invariant
                i <= game_executables@.len(),
                games@.len() == i,
                forall|j: int|
                    0 <= j < i ==> (#[trigger] games@[j])@.game == game_executables@[j]@
                        && !games@[j].running && names_file_of(
                        game_executables@[j]@.exe_path,
                        games@[j]@.file_name,
                    ),
            decreases game_executables@.len() - i,
        {
            let g = &game_executables[i];
            let file_name = LudusaviManager::extract_exe_name(g.exe_path.as_str());
            games.push(
                WatchedGame {
                    game: GameInfo { name: g.name.clone(), exe_path: g.exe_path.clone() },
                    file_name,
                    running: false,
                },
            );
            i = i + 1;
        }
        ProcessMonitor { games }
    }

    /// One look at the processes that run: tells of the first game that
    /// started since the last look, else of the first game that ended.
    pub fn check_processes(&mut self, processes: &Vec<RunningProcess>) -> (r: Option<GameEvent>)
        ensures
            (final(self).games(), event_view(r)) == looked(
                old(self).games(),
                process_records(processes@),
            ),
    {
        let ghost before = self.games();
        let ghost procs = process_records(processes@);
        let mut i: usize = 0;
        while i < self.games.len()
            invariant
                i <= self.games@.len(),
                self.games() == before,
                before == old(self).games(),
                procs == process_records(processes@),
                first_started(before, procs, 0) == first_started(before, procs, i as int),
            decreases self.games@.len() - i,
        {
            if !self.games[i].running && is_running(processes, &self.games[i]) {
                let g = &self.games[i];
                let event = GameInfo { name: g.game.name.clone(), exe_path: g.game.exe_path.clone() };
                let marked = WatchedGame {
                    game: GameInfo { name: g.game.name.clone(), exe_path: g.game.exe_path.clone() },
                    file_name: g.file_name.clone(),
                    running: true,
                };
                self.games.set(i, marked);
                return Some(GameEvent::Started(event));
            }
            i = i + 1;
        }
        let mut k: usize = 0;
        while k < self.games.len()
            invariant
                k <= self.games@.len(),
                self.games() == before,
                before == old(self).games(),
                procs == process_records(processes@),
                first_started(before, procs, 0) is None,
                first_ended(before, procs, 0) == first_ended(before, procs, k as int),
            decreases self.games@.len() - k,
        {
            if self.games[k].running && !is_running(processes, &self.games[k]) {
                let g = &self.games[k];
                let event = GameInfo { name: g.game.name.clone(), exe_path: g.game.exe_path.clone() };
                let marked = WatchedGame {
                    game: GameInfo { name: g.game.name.clone(), exe_path: g.game.exe_path.clone() },
                    file_name: g.file_name.clone(),
                    running: false,
                };
                self.games.set(k, marked);
                assert(self.games() == before.update(
                    k as int,
                    with_running(before[k as int], false),
                ));
                return Some(GameEvent::Ended(event));
            }
            k = k + 1;
        }
        None
    }
}

} // verus!

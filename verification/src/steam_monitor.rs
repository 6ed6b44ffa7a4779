//! The game lifecycle monitor: from the processes that run, the game that
//! runs, and from one poll to the next, the game that started or ended.

use crate::achievements::{AchievementDatabase, excludes};
use crate::ini::{skip_space, skip_whitespace};
use crate::text::{
    chars_of, contains, contains_text, ends_with, find, find_from, has_suffix, is_whitespace,
    lowercase, lowercase_of, matches_at, occurs_at, replace_char, replaced, slice, string_of,
    whitespace,
};
use vstd::prelude::*;

verus! {

/// A game, as a mathematical value.
pub struct GameRecord {
    pub app_id: u32,
    pub name: Seq<char>,
}

/// A game of the platform.
#[derive(Debug, Clone)]
pub struct GameInfo {
    pub app_id: u32,
    pub name: String,
}

impl View for GameInfo {
    type V = GameRecord;

    open spec fn view(&self) -> GameRecord {
        GameRecord { app_id: self.app_id, name: self.name@ }
    }
}

impl GameInfo {
    /// A copy of the game.
    pub fn duplicate(&self) -> (r: GameInfo)
        ensures
            r == *self,
    {
        GameInfo { app_id: self.app_id, name: self.name.clone() }
    }
}

/// What a poll found, as a mathematical value.
pub enum EventRecord {
    Started(GameRecord),
    Ended(GameRecord),
}

/// What a poll found: a game started, or a game ended.
pub enum GameEvent {
    Started(GameInfo),
    Ended(GameInfo),
}

impl View for GameEvent {
    type V = EventRecord;

    open spec fn view(&self) -> EventRecord {
        match self {
            GameEvent::Started(g) => EventRecord::Started(g@),
            GameEvent::Ended(g) => EventRecord::Ended(g@),
        }
    }
}

/// The view of an optional game.
pub open spec fn game_view(g: Option<GameInfo>) -> Option<GameRecord> {
    match g {
        Some(g) => Some(g@),
        None => None,
    }
}

/// The view of an optional event.
pub open spec fn event_view(e: Option<GameEvent>) -> Option<EventRecord> {
    match e {
        Some(e) => Some(e@),
        None => None,
    }
}

/// An executable of an installed game, as a mathematical value.
pub struct ExecutableRecord {
    pub exe_name: Seq<char>,
    pub app_id: u32,
    pub game_name: Seq<char>,
}

/// An executable of an installed game.
#[derive(Debug, Clone)]
pub struct KnownExecutable {
    pub exe_name: String,
    pub app_id: u32,
    pub game_name: String,
}

impl View for KnownExecutable {
    type V = ExecutableRecord;

    open spec fn view(&self) -> ExecutableRecord {
        ExecutableRecord { exe_name: self.exe_name@, app_id: self.app_id, game_name: self.game_name@ }
    }
}

/// The executables of a list, each by its view.
pub open spec fn executable_records(list: Seq<KnownExecutable>) -> Seq<ExecutableRecord> {
    Seq::new(list.len(), |i: int| list[i]@)
}

/// The beginnings of a file name that mark an executable as no game:
/// uninstallers and installers.
pub open spec fn tool_prefixes() -> Seq<Seq<char>> {
    seq!["unins"@, "setup"@]
}

/// The parts of a file name that mark an executable as no game, wherever in
/// the name they stand: crash reporters, launchers and redistributables.
pub open spec fn tool_marks() -> Seq<Seq<char>> {
    seq!["crash"@, "report"@, "launcher"@, "redist"@]
}

/// Whether an executable counts as a game's: its name in lower case begins
/// with none of the beginnings of a tool's name, and holds none of the marks
/// of a tool.
pub open spec fn is_game_executable(exe_name: Seq<char>) -> bool {
    &&& forall|k: int|
        0 <= k < tool_prefixes().len() ==> !occurs_at(lowercase_of(exe_name), #[trigger] tool_prefixes()[k], 0)
    &&& forall|k: int|
        0 <= k < tool_marks().len() ==> !contains_text(lowercase_of(exe_name), #[trigger] tool_marks()[k])
}

/// Whether an executable counts as a game's.
pub fn counts_as_game(exe_name: &str) -> (r: bool)
    ensures
        r == is_game_executable(exe_name@),
{
    let lower = lowercase(&chars_of(exe_name));
    let prefixes: [&str; 2] = ["unins", "setup"];
    let mut k: usize = 0;
    while k < 2
        invariant
            k <= 2,
            lower@ == lowercase_of(exe_name@),
            prefixes@ == seq!["unins", "setup"],
            forall|j: int|
                0 <= j < k ==> !occurs_at(lowercase_of(exe_name@), #[trigger] tool_prefixes()[j], 0),
        decreases 2 - k,
    {
        assert(prefixes@[k as int]@ == tool_prefixes()[k as int]);
        if matches_at(&lower, &chars_of(prefixes[k]), 0) {
            return false;
        }
        k = k + 1;
    }
    let marks: [&str; 4] = ["crash", "report", "launcher", "redist"];
    let mut k: usize = 0;
    while k < 4
        invariant
            k <= 4,
            lower@ == lowercase_of(exe_name@),
            marks@ == seq!["crash", "report", "launcher", "redist"],
            forall|j: int|
                0 <= j < tool_prefixes().len() ==> !occurs_at(
                    lowercase_of(exe_name@),
                    #[trigger] tool_prefixes()[j],
                    0,
                ),
            forall|j: int|
                0 <= j < k ==> !contains_text(lowercase_of(exe_name@), #[trigger] tool_marks()[j]),
        decreases 4 - k,
    {
        assert(marks@[k as int]@ == tool_marks()[k as int]);
        if contains(&lower, &chars_of(marks[k])) {
            return false;
        }
        k = k + 1;
    }
    true
}

/// The game that the first `n` known executables give for a process name:
/// that of the last of them with the name.
pub open spec fn game_of_process(known: Seq<ExecutableRecord>, process: Seq<char>, n: nat) -> Option<
    GameRecord,
>
    decreases n,
{
    if n == 0 || n > known.len() {
        None
    } else if known[n - 1].exe_name == process {
        Some(GameRecord { app_id: known[n - 1].app_id, name: known[n - 1].game_name })
    } else {
        game_of_process(known, process, (n - 1) as nat)
    }
}

/// The game that runs, going by the processes `processes[from..]`: that of
/// the first process that belongs to a known game which is not excluded.
pub open spec fn running_game(
    known: Seq<ExecutableRecord>,
    excluded: Set<u32>,
    processes: Seq<Seq<char>>,
    from: int,
) -> Option<GameRecord>
    decreases processes.len() - from,
{
    if from < 0 || from >= processes.len() {
        None
    } else {
        match game_of_process(known, processes[from], known.len()) {
            Some(g) => if excluded.contains(g.app_id) {
                running_game(known, excluded, processes, from + 1)
            } else {
                Some(g)
            },
            None => running_game(known, excluded, processes, from + 1),
        }
    }
}

/// What a poll emits: a start where no game ran and one runs now; an end
/// where a game ran and does not run now, be it that another runs or none.
pub open spec fn poll_event(last: Option<GameRecord>, current: Option<GameRecord>) -> Option<
    EventRecord,
> {
    match (last, current) {
        (None, Some(g)) => Some(EventRecord::Started(g)),
        (Some(g), None) => Some(EventRecord::Ended(g)),
        (Some(g), Some(h)) => if g.app_id != h.app_id {
            Some(EventRecord::Ended(g))
        } else {
            None
        },
        (None, None) => None,
    }
}

/// The game that the monitor remembers after a poll: the game that started;
/// none after an end, so that a game which took over starts at the next
/// poll; else the game as before.
pub open spec fn poll_state(last: Option<GameRecord>, current: Option<GameRecord>) -> Option<
    GameRecord,
> {
    match (last, current) {
        (None, Some(g)) => Some(g),
        (Some(g), None) => None,
        (Some(g), Some(h)) => if g.app_id != h.app_id {
            None
        } else {
            Some(g)
        },
        (None, None) => None,
    }
}

/// The set of the games that a store excludes.
pub open spec fn excluded_games(db: &AchievementDatabase) -> Set<u32> {
    Set::new(|app_id: u32| excludes(db.exclusions(), app_id))
}

/// The lifecycle monitor.
pub struct SteamMonitor {
    current_game: Option<GameInfo>,
    game_executables: Vec<KnownExecutable>,
}

impl SteamMonitor {
    /// The game that ran at the last poll.
    pub closed spec fn last_game(&self) -> Option<GameRecord> {
        game_view(self.current_game)
    }

    /// The known executables.
    pub closed spec fn known(&self) -> Seq<ExecutableRecord> {
        executable_records(self.game_executables@)
    }

    /// A monitor that knows these executables and has seen no game yet.
    pub fn new(game_executables: Vec<KnownExecutable>) -> (r: SteamMonitor)
        ensures
            r.last_game() is None,
            r.known() == executable_records(game_executables@),
    {
        SteamMonitor { current_game: None, game_executables }
    }

    /// The game of a process name.
    fn lookup(&self, process: &String) -> (r: Option<GameInfo>)
        ensures
            game_view(r) == game_of_process(self.known(), process@, self.known().len()),
    {
        let mut n: usize = self.game_executables.len();
        while n > 0
            invariant
                n <= self.game_executables@.len(),
                game_of_process(self.known(), process@, self.known().len()) == game_of_process(
                    self.known(),
                    process@,
                    n as nat,
                ),
            decreases n,
        {
            let e = &self.game_executables[n - 1];
            if e.exe_name == *process {
                return Some(GameInfo { app_id: e.app_id, name: e.game_name.clone() });
            }
            n = n - 1;
        }
        None
    }

    /// The game that runs, going by the names of the processes that run.
    /// Excluded games are passed over.
    pub fn get_running_game(&self, processes: &Vec<String>, db: &AchievementDatabase) -> (r: Option<
        GameInfo,
    >)
        ensures
            game_view(r) == running_game(
                self.known(),
                excluded_games(db),
                crate::paths::names(processes@),
                0,
            ),
    {
        let mut i: usize = 0;
        while i < processes.len()
            invariant
                i <= processes@.len(),
                running_game(self.known(), excluded_games(db), crate::paths::names(processes@), 0)
                    == running_game(
                    self.known(),
                    excluded_games(db),
                    crate::paths::names(processes@),
                    i as int,
                ),
            decreases processes@.len() - i,
        {
            match self.lookup(&processes[i]) {
                Some(g) => {
                    if !db.is_excluded(g.app_id) {
                        return Some(g);
                    }
                },
                None => {},
            }
            i = i + 1;
        }
        None
    }

    /// One poll: takes the game that runs now and tells what happened since
    /// the last poll.
    pub fn check_steam(&mut self, current: Option<GameInfo>) -> (r: Option<GameEvent>)
        ensures
            event_view(r) == poll_event(old(self).last_game(), game_view(current)),
            final(self).last_game() == poll_state(old(self).last_game(), game_view(current)),
            final(self).known() == old(self).known(),
    {
        let last = self.current_game.take();
        match (last, current) {
            (None, Some(game)) => {
                self.current_game = Some(game.duplicate());
                Some(GameEvent::Started(game))
            },
            (Some(old_game), None) => Some(GameEvent::Ended(old_game)),
            (Some(old_game), Some(game)) => {
                if old_game.app_id != game.app_id {
                    Some(GameEvent::Ended(old_game))
                } else {
                    self.current_game = Some(old_game);
                    None
                }
            },
            (None, None) => None,
        }
    }
}

/// How deep below a game's directory executables are looked for.
pub const MAX_SCAN_DEPTH: usize = 3;

/// Whether a directory at this depth below a game's directory is looked
/// into.
pub open spec fn descends(depth: usize) -> bool {
    depth < MAX_SCAN_DEPTH
}

/// Whether a directory at this depth below a game's directory is looked
/// into.
pub fn may_descend(depth: usize) -> (r: bool)
    ensures
        r == descends(depth),
{
    depth < MAX_SCAN_DEPTH
}

/// A file found below a game's directory, as a mathematical value.
pub struct FoundRecord {
    pub name: Seq<char>,
    pub depth: usize,
}

/// A file found below a game's directory: its name, and how deep below the
/// game's directory the directory lies that holds it, zero for the game's
/// directory itself.
#[derive(Debug, Clone)]
pub struct FoundFile {
    pub name: String,
    pub depth: usize,
}

impl View for FoundFile {
    type V = FoundRecord;

    open spec fn view(&self) -> FoundRecord {
        FoundRecord { name: self.name@, depth: self.depth }
    }
}

/// The files of a list, each by its view.
pub open spec fn found_records(list: Seq<FoundFile>) -> Seq<FoundRecord> {
    Seq::new(list.len(), |i: int| list[i]@)
}

/// Whether a file's name ends with `.exe`, in small or capital letters,
/// after at least one other character.
pub open spec fn is_exe_name(name: Seq<char>) -> bool {
    let n = name.len() as int;
    n > 4 && name[n - 4] == '.' && (name[n - 3] == 'e' || name[n - 3] == 'E') && (name[n - 2]
        == 'x' || name[n - 2] == 'X') && (name[n - 1] == 'e' || name[n - 1] == 'E')
}

/// Whether a file's name ends with `.exe`.
pub fn has_exe_extension(name: &str) -> (r: bool)
    ensures
        r == is_exe_name(name@),
{
    let chars = chars_of(name);
    let n = chars.len();
    n > 4 && chars[n - 4] == '.' && (chars[n - 3] == 'e' || chars[n - 3] == 'E') && (chars[n - 2]
        == 'x' || chars[n - 2] == 'X') && (chars[n - 1] == 'e' || chars[n - 1] == 'E')
}

/// Whether a file found below a game's directory is taken for an executable
/// of the game: it lies no deeper than is looked, its name ends with `.exe`,
/// and it is no tool.
pub open spec fn is_known_file(f: FoundRecord) -> bool {
    f.depth <= MAX_SCAN_DEPTH && is_exe_name(f.name) && is_game_executable(f.name)
}

/// The executables of a game among the first `n` files found below its
/// directory, in the order of the files.
pub open spec fn executables_among(
    files: Seq<FoundRecord>,
    app_id: u32,
    game_name: Seq<char>,
    n: nat,
) -> Seq<ExecutableRecord>
    decreases n,
{
    if n == 0 || n > files.len() {
        Seq::empty()
    } else if is_known_file(files[n - 1]) {
        executables_among(files, app_id, game_name, (n - 1) as nat).push(
            ExecutableRecord { exe_name: files[n - 1].name, app_id, game_name },
        )
    } else {
        executables_among(files, app_id, game_name, (n - 1) as nat)
    }
}

/// The executables of a game among the files found below its directory.
pub fn scan_game_executables(files: &Vec<FoundFile>, app_id: u32, game_name: &str) -> (r: Vec<
    KnownExecutable,
>)
    ensures
        executable_records(r@) == executables_among(
            found_records(files@),
            app_id,
            game_name@,
            files@.len(),
        ),
{
    let mut out: Vec<KnownExecutable> = Vec::new();
    let mut i: usize = 0;
    while i < files.len()
        invariant
            i <= files@.len(),
            executable_records(out@) == executables_among(
                found_records(files@),
                app_id,
                game_name@,
                i as nat,
            ),
        decreases files@.len() - i,
    {
        let f = &files[i];
        assert(found_records(files@)[i as int] == f@);
        let ghost before = executable_records(out@);
        if f.depth <= MAX_SCAN_DEPTH && has_exe_extension(f.name.as_str()) && counts_as_game(
            f.name.as_str(),
        ) {
            out.push(
                KnownExecutable { exe_name: f.name.clone(), app_id, game_name: game_name.to_owned() },
            );
            assert(executable_records(out@) == before.push(out@[out@.len() - 1]@));
        }
        i = i + 1;
    }
    out
}

/// Whether a file in a library's directory is the manifest of an installed
/// game, by its name.
pub open spec fn is_manifest_name(name: Seq<char>) -> bool {
    occurs_at(name, "appmanifest_"@, 0) && ends_with(name, ".acf"@)
}

/// Whether a file in a library's directory is the manifest of an installed
/// game.
pub fn is_manifest_file(name: &str) -> (r: bool)
    ensures
        r == is_manifest_name(name@),
{
    let chars = chars_of(name);
    matches_at(&chars, &chars_of("appmanifest_"), 0) && has_suffix(&chars, &chars_of(".acf"))
}

/// A line of the registry's answer without the white space around it.
pub open spec fn trim_start(s: Seq<char>, from: int) -> int {
    skip_space(s, from)
}

/// Where the text ends once the white space at its end is taken off, not
/// before `from`.
pub open spec fn trim_end(s: Seq<char>, from: int, n: int) -> int
    decreases n - from,
{
    if n <= from || n > s.len() {
        from
    } else if whitespace(s[n - 1]) {
        trim_end(s, from, n - 1)
    } else {
        n
    }
}

/// The path that one line of the registry's answer gives: where the line
/// names `SteamPath`, what follows the first `REG_SZ` up to the next one or
/// the end of the line, without the white space around it, with `\` for
/// every `/`.
pub open spec fn path_of_line(line: Seq<char>) -> Option<Seq<char>> {
    if find_from(line, "SteamPath"@, 0) is Some {
        match find_from(line, "REG_SZ"@, 0) {
            Some(at) => {
                let start = at + "REG_SZ"@.len();
                let end = match find_from(line, "REG_SZ"@, start) {
                    Some(next) => next,
                    None => line.len() as int,
                };
                let from = trim_start(line.subrange(0, end), start);
                let to = trim_end(line, from, end);
                Some(replaced(line.subrange(from, to), '/', '\\'))
            },
            None => None,
        }
    } else {
        None
    }
}

/// Where the line that begins at `from` ends: at the next line feed, or at
/// the end of the text.
pub open spec fn line_end(text: Seq<char>, from: int) -> int
    decreases text.len() - from,
{
    if from < 0 || from >= text.len() {
        text.len() as int
    } else if text[from] == '\n' {
        from
    } else {
        line_end(text, from + 1)
    }
}

/// The path of the platform's installation that the registry's answer
/// gives: that of the first line from `from` on that gives one.
pub open spec fn registry_path(text: Seq<char>, from: int) -> Option<Seq<char>>
    decreases text.len() - from,
{
    if from < 0 || from >= text.len() {
        None
    } else {
        let end = line_end(text, from);
        match path_of_line(text.subrange(from, end)) {
            Some(p) => Some(p),
            None => if from <= end < text.len() {
                registry_path(text, end + 1)
            } else {
                None
            },
        }
    }
}

/// The path that one line of the registry's answer gives.
pub fn read_path_line(line: &Vec<char>) -> (r: Option<Vec<char>>)
    ensures
        match r {
            Some(p) => path_of_line(line@) == Some(p@),
            None => path_of_line(line@) is None,
        },
{
    let key = chars_of("REG_SZ");
    if find(line, &chars_of("SteamPath"), 0).is_none() {
        return None;
    }
    let at = match find(line, &key, 0) {
        Some(at) => at,
        None => {
            return None;
        },
    };
    proof {
        crate::text::lemma_find_from(line@, key@, 0);
    }
    let len = line.len();
    let start = at + key.len();
    let end = match find(line, &key, start) {
        Some(next) => {
            proof {
                crate::text::lemma_find_from(line@, key@, start as int);
            }
            next
        },
        None => line.len(),
    };
    let head = slice(line, 0, end);
    let from = skip_whitespace(&head, start);
    let mut to: usize = end;
    while to > from && is_whitespace(line[to - 1])
        invariant
            from <= to <= end <= line@.len(),
            trim_end(line@, from as int, end as int) == trim_end(line@, from as int, to as int),
        decreases to,
    {
        to = to - 1;
    }
    Some(replace_char(&slice(line, from, to), '/', '\\'))
}

/// Where the line that begins at `from` ends.
fn find_line_end(text: &Vec<char>, from: usize) -> (r: usize)
    requires
        from <= text@.len(),
    ensures
        r == line_end(text@, from as int),
        from <= r <= text@.len(),
{
    let mut i: usize = from;
    while i < text.len() && text[i] != '\n'
        invariant
            from <= i <= text@.len(),
            line_end(text@, from as int) == line_end(text@, i as int),
        decreases text@.len() - i,
    {
        i = i + 1;
    }
    i
}

/// The path of the platform's installation that the registry's answer to a
/// query for `SteamPath` gives.
pub fn find_steam_path(output: &str) -> (r: Option<String>)
    ensures
        match r {
            Some(p) => registry_path(output@, 0) == Some(p@),
            None => registry_path(output@, 0) is None,
        },
{
    let text = chars_of(output);
    let mut from: usize = 0;
    while from < text.len()
        invariant
            from <= text@.len(),
            text@ == output@,
            registry_path(text@, 0) == registry_path(text@, from as int),
        decreases text@.len() - from,
    {
        let end = find_line_end(&text, from);
        match read_path_line(&slice(&text, from, end)) {
            Some(p) => {
                return Some(string_of(&p));
            },
            None => {},
        }
        if end == text.len() {
            return None;
        }
        from = end + 1;
    }
    None
}

} // verus!

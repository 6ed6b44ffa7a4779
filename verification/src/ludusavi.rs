//! The backup tool: how it is called and what its answer says.

use crate::error::EngineError;
use crate::json::{document_of, JsonModel, JsonValue, parse};
use crate::paths::names;
use crate::steam_achievements::opt_text;
use crate::text::{contains_text, lowercase_of, sort_texts, sorted_texts, text_views, to_lowercase};
use vstd::prelude::*;

verus! {

/// What a backup did, as a mathematical value.
pub struct BackupRecord {
    pub success: bool,
    pub not_found: Option<bool>,
    pub files_backed_up: Option<usize>,
    pub total_size: Option<Seq<char>>,
    pub error: Option<Seq<char>>,
}

/// What a backup did.
#[derive(Debug, Clone)]
pub struct BackupResult {
    pub success: bool,
    pub not_found: Option<bool>,
    pub files_backed_up: Option<usize>,
    pub total_size: Option<String>,
    pub error: Option<String>,
}

impl View for BackupResult {
    type V = BackupRecord;

    open spec fn view(&self) -> BackupRecord {
        BackupRecord {
            success: self.success,
            not_found: self.not_found,
            files_backed_up: self.files_backed_up,
            total_size: opt_text(self.total_size),
            error: opt_text(self.error),
        }
    }
}

/// The backup tool as it is configured.
pub struct LudusaviManager {
    ludusavi_path: String,
    backup_path: String,
}

/// The name of an executable's file in lower case, from the last part of
/// its path; empty where the path has no last part.
pub open spec fn exe_name(file_name: Option<Seq<char>>) -> Seq<char> {
    match file_name {
        Some(n) => lowercase_of(n),
        None => lowercase_of(Seq::empty()),
    }
}

/// Whether a part stands in a path, as far as there is one.
pub open spec fn stands_in(path: Seq<char>, part: Option<Seq<char>>) -> bool {
    match part {
        Some(n) => contains_text(path, n),
        None => true,
    }
}

/// Whether a text can name the file of a path: it is the name that a part
/// which stands in the path gives, or the name that no part gives.
pub open spec fn names_file_of(path: Seq<char>, name: Seq<char>) -> bool {
    exists|part: Option<Seq<char>>| name == exe_name(part) && #[trigger] stands_in(path, part)
}

/// Calls `Path::file_name` and `OsStr::to_str`: the last part of a path as
/// the platform splits it, where there is one and it is text. Claimed of it
/// is only that it stands in the path: which part it is depends on the
/// platform's separators.
#[verifier::external_body]
fn last_part(path: &str) -> (r: Option<String>)
    ensures
        r matches Some(n) ==> contains_text(path@, n@),
{
    std::path::Path::new(path).file_name().and_then(|n| n.to_str()).map(|n| n.to_owned())
}

/// A report that a backup failed with an error.
pub open spec fn failed(error: Seq<char>) -> BackupRecord {
    BackupRecord {
        success: false,
        not_found: None,
        files_backed_up: None,
        total_size: None,
        error: Some(error),
    }
}

/// A report that the tool does not know the game.
pub open spec fn unknown_game() -> BackupRecord {
    BackupRecord {
        success: false,
        not_found: Some(true),
        files_backed_up: None,
        total_size: None,
        error: None,
    }
}

/// A report that files were backed up. The size is left for the caller to
/// put into words.
pub open spec fn backed_up(files: usize) -> BackupRecord {
    BackupRecord {
        success: true,
        not_found: None,
        files_backed_up: Some(files),
        total_size: None,
        error: None,
    }
}

/// The sum of the sizes of the first `n` files; `None` where a file gives no
/// size or the sum does not fit.
pub open spec fn bytes_of(files: Seq<(Seq<char>, JsonModel)>, n: nat) -> Option<i64>
    decreases n,
{
    if n == 0 || n > files.len() {
        Some(0i64)
    } else {
        match (bytes_of(files, (n - 1) as nat), files[n - 1].1.member("bytes"@)) {
            (Some(sum), Some(b)) => match b.integer() {
                Some(size) => if i64::MIN <= sum + size <= i64::MAX {
                    Some((sum + size) as i64)
                } else {
                    None
                },
                None => None,
            },
            _ => None,
        }
    }
}

/// What the tool's answer says of a game: the game is unknown where the
/// answer does not hold it or has ignored it; else how many files were backed
/// up and how many bytes. `Parse` where the answer is not as expected.
pub open spec fn report_of(doc: JsonModel, game_name: Seq<char>) -> Result<
    (BackupRecord, i64),
    EngineError,
> {
    match doc.member("games"@) {
        Some(games) => match games.members() {
            Some(_) => match games.member(game_name) {
                Some(game) => match game.member("decision"@) {
                    Some(d) => match d.text() {
                        Some(decision) => if decision == "Ignored"@ {
                            Ok((unknown_game(), 0i64))
                        } else {
                            match game.member("files"@) {
                                Some(files) => match files {
                                    JsonModel::Null => Ok((backed_up(0), 0i64)),
                                    JsonModel::Object(list) => match bytes_of(list, list.len()) {
                                        Some(total) => if list.len() <= usize::MAX {
                                            Ok((backed_up(list.len() as usize), total))
                                        } else {
                                            Err(EngineError::Parse)
                                        },
                                        None => Err(EngineError::Parse),
                                    },
                                    _ => Err(EngineError::Parse),
                                },
                                None => Ok((backed_up(0), 0i64)),
                            }
                        },
                        None => Err(EngineError::Parse),
                    },
                    None => Err(EngineError::Parse),
                },
                None => Ok((unknown_game(), 0i64)),
            },
            None => Err(EngineError::Parse),
        },
        None => Err(EngineError::Parse),
    }
}

/// What a run of the tool says: its error output where it failed; else what
/// its answer says of the game.
pub open spec fn backup_outcome(
    succeeded: bool,
    stdout: Seq<char>,
    stderr: Seq<char>,
    game_name: Seq<char>,
) -> Result<(BackupRecord, i64), EngineError> {
    if !succeeded {
        Ok((failed(stderr), 0i64))
    } else {
        match document_of(stdout) {
            Some(doc) => report_of(doc, game_name),
            None => Err(EngineError::Parse),
        }
    }
}

/// The arguments of a backup of a game: with the backup directory where one
/// is configured.
pub open spec fn backup_arguments(game_name: Seq<char>, backup_path: Seq<char>) -> Seq<Seq<char>> {
    if backup_path.len() == 0 {
        seq!["backup"@, "--api"@, "--force"@, game_name]
    } else {
        seq!["backup"@, "--api"@, "--force"@, game_name, "--path"@, backup_path]
    }
}

/// Whether a list of the tool's games that was kept at `timestamp` is still
/// good at `now`, in seconds: for less than a day.
pub open spec fn is_fresh(now: u64, timestamp: u64) -> bool {
    now >= timestamp && now - timestamp < 86400
}

impl LudusaviManager {
    /// The path of the tool.
    pub closed spec fn tool(&self) -> Seq<char> {
        self.ludusavi_path@
    }

    /// The directory of the backups; empty where none is configured.
    pub closed spec fn target(&self) -> Seq<char> {
        self.backup_path@
    }

    /// The tool at `ludusavi_path`, backing up to `backup_path`.
    pub fn new(ludusavi_path: String, backup_path: String) -> (r: LudusaviManager)
        ensures
            r.tool() == ludusavi_path@,
            r.target() == backup_path@,
    {
        LudusaviManager { ludusavi_path, backup_path }
    }

    /// The path of the tool.
    pub fn ludusavi_path(&self) -> (r: &String)
        ensures
            r@ == self.tool(),
    {
        &self.ludusavi_path
    }

    /// The name of an executable's file in lower case, from the last part of
    /// its path.
    pub fn exe_name_from(file_name: Option<&str>) -> (r: String)
        ensures
            r@ == exe_name(
                match file_name {
                    Some(n) => Some(n@),
                    None => None,
                },
            ),
    {
        match file_name {
            Some(n) => to_lowercase(n),
            None => {
                proof {
                    reveal_strlit("");
                }
                assert(""@ == Seq::<char>::empty());
                to_lowercase("")
            },
        }
    }

    /// The name of the file of an executable in lower case: the last part of
    /// the path as the platform splits it, which stands in the path; empty
    /// where there is none.
    pub fn extract_exe_name(path: &str) -> (r: String)
        ensures
            names_file_of(path@, r@),
    {
        let part = last_part(path);
        let r = match &part {
            Some(n) => {
                assert(stands_in(path@, Some(n@)));
                Self::exe_name_from(Some(n.as_str()))
            },
            None => {
                assert(stands_in(path@, None));
                Self::exe_name_from(None)
            },
        };
        r
    }

    /// The arguments with which the tool backs up a game.
    pub fn backup_args(&self, game_name: &str) -> (r: Vec<String>)
        ensures
            names(r@) == backup_arguments(game_name@, self.target()),
    {
        let mut args: Vec<String> = Vec::new();
        args.push("backup".to_owned());
        args.push("--api".to_owned());
        args.push("--force".to_owned());
        args.push(game_name.to_owned());
        if !self.backup_path.as_str().is_empty() {
            args.push("--path".to_owned());
            args.push(self.backup_path.clone());
        }
        args
    }

    /// Whether a kept list of the tool's games is still good.
    pub fn cache_is_fresh(now: u64, timestamp: u64) -> (r: bool)
        ensures
            r == is_fresh(now, timestamp),
    {
        now >= timestamp && now - timestamp < 86400
    }

    /// Reads what a run of the tool says of a game: the report, and the
    /// number of bytes that were backed up.
    pub fn backup(succeeded: bool, stdout: &str, stderr: &str, game_name: &str) -> (r: Result<
        (BackupResult, i64),
        EngineError,
    >)
        ensures
            match r {
                Ok(report) => backup_outcome(succeeded, stdout@, stderr@, game_name@) == Ok::<
                    (BackupRecord, i64),
                    EngineError,
                >((report.0@, report.1)),
                Err(e) => backup_outcome(succeeded, stdout@, stderr@, game_name@) == Err::<
                    (BackupRecord, i64),
                    EngineError,
                >(e),
            },
    {
        if !succeeded {
            return Ok(
                (
                    BackupResult {
                        success: false,
                        not_found: None,
                        files_backed_up: None,
                        total_size: None,
                        error: Some(stderr.to_owned()),
                    },
                    0,
                ),
            );
        }
        let doc = match parse(stdout) {
            Ok(doc) => doc,
            Err(e) => {
                return Err(e);
            },
        };
        read_report(&doc, game_name)
    }
}

/// A report that the tool does not know the game.
fn not_found_report() -> (r: (BackupResult, i64))
    ensures
        r.0@ == unknown_game(),
        r.1 == 0,
{
    (
        BackupResult {
            success: false,
            not_found: Some(true),
            files_backed_up: None,
            total_size: None,
            error: None,
        },
        0,
    )
}

/// A report that files were backed up.
fn success_report(files: usize, total: i64) -> (r: (BackupResult, i64))
    ensures
        r.0@ == backed_up(files),
        r.1 == total,
{
    (
        BackupResult {
            success: true,
            not_found: None,
            files_backed_up: Some(files),
            total_size: None,
            error: None,
        },
        total,
    )
}

/// What the tool's answer says of a game.
pub fn read_report(doc: &JsonValue, game_name: &str) -> (r: Result<(BackupResult, i64), EngineError>)
    ensures
        match r {
            Ok(report) => report_of(doc@, game_name@) == Ok::<(BackupRecord, i64), EngineError>(
                (report.0@, report.1),
            ),
            Err(e) => report_of(doc@, game_name@) == Err::<(BackupRecord, i64), EngineError>(e),
        },
{
    let games = match doc.get("games") {
        Some(games) => games,
        None => {
            return Err(EngineError::Parse);
        },
    };
    if games.as_object().is_none() {
        return Err(EngineError::Parse);
    }
    let game = match games.get(game_name) {
        Some(game) => game,
        None => {
            return Ok(not_found_report());
        },
    };
    let decision = match game.get("decision") {
        Some(d) => match d.as_str() {
            Some(s) => s,
            None => {
                return Err(EngineError::Parse);
            },
        },
        None => {
            return Err(EngineError::Parse);
        },
    };
    if *decision == "Ignored".to_owned() {
        return Ok(not_found_report());
    }
    let files = match game.get("files") {
        Some(files) => files,
        None => {
            return Ok(success_report(0, 0));
        },
    };
    match files {
        JsonValue::Null => Ok(success_report(0, 0)),
        JsonValue::Object(list) => {
            proof {
                crate::json::lemma_members_view(*list, list@.len());
            }
            let ghost ms = files@->Object_0;
            let mut total: i64 = 0;
            let mut i: usize = 0;
            let count = list.len();
            assert(report_of(doc@, game_name@) == match bytes_of(ms, ms.len()) {
                Some(total) => Ok::<(BackupRecord, i64), EngineError>(
                    (backed_up(ms.len() as usize), total),
                ),
                None => Err::<(BackupRecord, i64), EngineError>(EngineError::Parse),
            });
            while i < list.len()
                invariant
                    i <= list@.len(),
                    ms.len() == list@.len(),
                    report_of(doc@, game_name@) == match bytes_of(ms, ms.len()) {
                        Some(total) => Ok::<(BackupRecord, i64), EngineError>(
                            (backed_up(ms.len() as usize), total),
                        ),
                        None => Err::<(BackupRecord, i64), EngineError>(EngineError::Parse),
                    },
                    forall|j: int|
                        0 <= j < ms.len() ==> #[trigger] ms[j] == (list@[j].0@, list@[j].1@),
                    bytes_of(ms, i as nat) == Some(total),
                decreases list@.len() - i,
            {
                let size = match list[i].1.get("bytes") {
                    Some(b) => match b.as_i64() {
                        Some(size) => size,
                        None => {
                            proof {
                                lemma_bytes_fail(ms, (i + 1) as nat, ms.len());
                            }
                            return Err(EngineError::Parse);
                        },
                    },
                    None => {
                        proof {
                            lemma_bytes_fail(ms, (i + 1) as nat, ms.len());
                        }
                        return Err(EngineError::Parse);
                    },
                };
                total = match total.checked_add(size) {
                    Some(sum) => sum,
                    None => {
                        proof {
                            lemma_bytes_fail(ms, (i + 1) as nat, ms.len());
                        }
                        return Err(EngineError::Parse);
                    },
                };
                i = i + 1;
            }
            Ok(success_report(list.len(), total))
        },
        _ => Err(EngineError::Parse),
    }
}

/// Once the sum has failed, more files do not help.
pub proof fn lemma_bytes_fail(files: Seq<(Seq<char>, JsonModel)>, n: nat, m: nat)
    requires
        n <= m <= files.len(),
        bytes_of(files, n) is None,
    ensures
        bytes_of(files, m) is None,
    decreases m,
{
    if n < m {
        lemma_bytes_fail(files, n, (m - 1) as nat);
    }
}

/// The arguments with which the tool lists the games it knows.
pub open spec fn manifest_arguments() -> Seq<Seq<char>> {
    seq!["manifest"@, "show"@, "--api"@]
}

/// The names of the members of a list.
pub open spec fn member_names(members: Seq<(Seq<char>, JsonModel)>) -> Seq<Seq<char>> {
    Seq::new(members.len(), |i: int| members[i].0)
}

/// The games that the tool's list names, in the order of the dictionary;
/// `Parse` where the list is no JSON object.
pub open spec fn manifest_games(text: Seq<char>) -> Result<Seq<Seq<char>>, EngineError> {
    match document_of(text) {
        Some(doc) => match doc.members() {
            Some(members) => Ok(sorted_texts(member_names(members), members.len())),
            None => Err(EngineError::Parse),
        },
        None => Err(EngineError::Parse),
    }
}

impl LudusaviManager {
    /// The arguments with which the tool lists the games it knows.
    pub fn manifest_args() -> (r: Vec<String>)
        ensures
            names(r@) == manifest_arguments(),
    {
        let mut args: Vec<String> = Vec::new();
        args.push("manifest".to_owned());
        args.push("show".to_owned());
        args.push("--api".to_owned());
        args
    }

    /// The games that the tool's list names, in the order of the dictionary.
    pub fn get_manifest_games(stdout: &str) -> (r: Result<Vec<String>, EngineError>)
        ensures
            match r {
                Ok(games) => manifest_games(stdout@) == Ok::<Seq<Seq<char>>, EngineError>(
                    text_views(games@),
                ) && crate::laws::texts_ordered(text_views(games@)),
                Err(e) => manifest_games(stdout@) == Err::<Seq<Seq<char>>, EngineError>(e),
            },
    {
        let doc = match parse(stdout) {
            Ok(doc) => doc,
            Err(e) => {
                return Err(e);
            },
        };
        let members = match doc.as_object() {
            Some(members) => members,
            None => {
                return Err(EngineError::Parse);
            },
        };
        let ghost ms = doc@.members().unwrap();
        let mut found: Vec<String> = Vec::new();
        let mut i: usize = 0;
        while i < members.len()
            invariant
                i <= members@.len(),
                ms.len() == members@.len(),
                forall|j: int|
                    0 <= j < ms.len() ==> #[trigger] ms[j] == (members@[j].0@, members@[j].1@),
                text_views(found@) == member_names(ms).take(i as int),
            decreases members@.len() - i,
        {
            found.push(members[i].0.clone());
            assert(member_names(ms).take(i + 1) == member_names(ms).take(i as int).push(
                member_names(ms)[i as int],
            ));
            i = i + 1;
        }
        assert(member_names(ms).take(ms.len() as int) == member_names(ms));
        Ok(sort_texts(&found))
    }
}

} // verus!

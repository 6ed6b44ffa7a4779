//! What leaves the engine as files: the backup of a game's unlocks, the
//! export of the whole store, and icons as data addresses.

use crate::achievements::{
    Achievement, AchievementDatabase, AchievementRecord, all_games, backup_records, BackupEntry,
    BackupRecord, GameAchievementSummary, records, rows_of_game, summary_records, SummaryRecord,
};
use crate::error::EngineError;
use crate::json::{document_of, JsonModel, parse};
use crate::paths::{FilePath, PathRecord, root_path};
use crate::text::{chars_of, ends_with, has_suffix, string_of};
use vstd::prelude::*;
use vstd::string::StringExecFns;

verus! {

/// Whether a character may not stand in the name of a file.
pub open spec fn is_reserved(c: char) -> bool {
    c == '\\' || c == '/' || c == ':' || c == '*' || c == '?' || c == '"' || c == '<' || c == '>'
        || c == '|'
}

/// The name of a game as the name of a file: every character that may not
/// stand there is `_`.
pub open spec fn safe_name(name: Seq<char>) -> Seq<char> {
    Seq::new(name.len(), |i: int| if is_reserved(name[i]) {
        '_'
    } else {
        name[i]
    })
}

/// The name of a game as the name of a file.
pub fn safe_file_name(game_name: &str) -> (r: String)
    ensures
        r@ == safe_name(game_name@),
{
    let chars = chars_of(game_name);
    let mut out: Vec<char> = Vec::new();
    let mut i: usize = 0;
    while i < chars.len()
        invariant
            i <= chars@.len(),
            chars@ == game_name@,
            out@ == safe_name(game_name@).take(i as int),
        decreases chars@.len() - i,
    {
        let c = chars[i];
        let reserved = c == '\\' || c == '/' || c == ':' || c == '*' || c == '?' || c == '"' || c
            == '<' || c == '>' || c == '|';
        out.push(if reserved {
            '_'
        } else {
            c
        });
        assert(safe_name(game_name@).take(i + 1) == safe_name(game_name@).take(i as int).push(
            safe_name(game_name@)[i as int],
        ));
        i = i + 1;
    }
    string_of(&out)
}

/// The file that keeps the backup of a game's unlocks, below the user's
/// documents.
pub open spec fn backup_file(documents: Seq<char>, game_name: Seq<char>) -> PathRecord {
    root_path(documents).join("Steam Backup Monitor"@).join(safe_name(game_name) + ".json"@)
}

/// The file that keeps the backup of a game's unlocks.
pub fn export_file_path(documents: &str, game_name: &str) -> (r: FilePath)
    ensures
        r@ == backup_file(documents@, game_name@),
{
    let file = safe_file_name(game_name).concat(".json");
    FilePath::new(documents).join("Steam Backup Monitor").join(file.as_str())
}

/// The entries that the first `n` members of a backup document give: one for
/// each member that holds a whole number under `UnlockTime`.
pub open spec fn backup_entries(members: Seq<(Seq<char>, JsonModel)>, n: nat) -> Seq<BackupRecord>
    decreases n,
{
    if n == 0 || n > members.len() {
        Seq::empty()
    } else {
        let before = backup_entries(members, (n - 1) as nat);
        match members[n - 1].1.member("UnlockTime"@) {
            Some(t) => match t.integer() {
                Some(time) => before.push(
                    BackupRecord { achievement_id: members[n - 1].0, unlock_time: time },
                ),
                None => before,
            },
            None => before,
        }
    }
}

/// The backup that a text holds: `Parse` where the text is no JSON object.
pub open spec fn backup_of_text(text: Seq<char>) -> Result<Seq<BackupRecord>, EngineError> {
    match document_of(text) {
        Some(doc) => match doc.members() {
            Some(members) => Ok(backup_entries(members, members.len())),
            None => Err(EngineError::Parse),
        },
        None => Err(EngineError::Parse),
    }
}

/// Reads the backup of a game's unlocks.
pub fn read_backup(text: &str) -> (r: Result<Vec<BackupEntry>, EngineError>)
    ensures
        match r {
            Ok(list) => backup_of_text(text@) == Ok::<Seq<BackupRecord>, EngineError>(
                backup_records(list@),
            ),
            Err(e) => backup_of_text(text@) == Err::<Seq<BackupRecord>, EngineError>(e),
        },
{
    let doc = match parse(text) {
        Ok(doc) => doc,
        Err(e) => {
            return Err(e);
        },
    };
    let members = match doc.as_object() {
        Some(members) => members,
        None => {
            return Err(EngineError::Parse);
        },
    };
    let ghost ms = doc@.members().unwrap();
    let mut out: Vec<BackupEntry> = Vec::new();
    let mut i: usize = 0;
    while i < members.len()
        invariant
            i <= members@.len(),
            ms.len() == members@.len(),
            forall|j: int| 0 <= j < ms.len() ==> #[trigger] ms[j] == (members@[j].0@, members@[j].1@),
            backup_records(out@) == backup_entries(ms, i as nat),
        decreases members@.len() - i,
    {
        match members[i].1.get("UnlockTime") {
            Some(t) => match t.as_i64() {
                Some(time) => {
                    let entry = BackupEntry {
                        achievement_id: members[i].0.clone(),
                        unlock_time: time,
                    };
                    out.push(entry);
                },
                None => {},
            },
            None => {},
        }
        i = i + 1;
    }
    Ok(out)
}

/// One game of an export, as a mathematical value.
pub struct ExportRecord {
    pub game: SummaryRecord,
    pub achievements: Seq<AchievementRecord>,
}

/// One game of an export: its summary and its rows.
pub struct GameExport {
    pub game: GameAchievementSummary,
    pub achievements: Vec<Achievement>,
}

impl View for GameExport {
    type V = ExportRecord;

    open spec fn view(&self) -> ExportRecord {
        ExportRecord { game: self.game@, achievements: records(self.achievements@) }
    }
}

/// The games of an export, each by its view.
pub open spec fn export_records(list: Seq<GameExport>) -> Seq<ExportRecord> {
    Seq::new(list.len(), |i: int| list[i]@)
}

/// The export of a table: for each summary, the summary and all rows of its
/// game.
pub open spec fn exported_all(rows: Seq<AchievementRecord>) -> Seq<ExportRecord> {
    Seq::new(
        all_games(rows).len(),
        |i: int|
            ExportRecord {
                game: all_games(rows)[i],
                achievements: rows_of_game(rows, all_games(rows)[i].app_id),
            },
    )
}

/// The export of the whole store.
pub fn export_all(db: &AchievementDatabase) -> (r: Vec<GameExport>)
    ensures
        export_records(r@) == exported_all(db@),
{
    let games = db.get_all_games();
    let mut out: Vec<GameExport> = Vec::new();
    let mut i: usize = 0;
    while i < games.len()
        invariant
            i <= games@.len(),
            summary_records(games@) == all_games(db@),
            out@.len() == i,
            forall|j: int| 0 <= j < i ==> (#[trigger] out@[j])@ == exported_all(db@)[j],
        decreases games@.len() - i,
    {
        let achievements = db.get_game_achievements(games[i].app_id);
        out.push(GameExport { game: games[i].duplicate(), achievements });
        i = i + 1;
    }
    out
}

/// Bytes in base 64 with padding, as `base64`'s standard engine encodes
/// them.
pub uninterp spec fn base64_of(bytes: Seq<u8>) -> Seq<char>;

/// Calls `Engine::encode` of `base64::engine::general_purpose::STANDARD`.
/// What it returns depends on the bytes alone. The length is bounded
/// because the encoder stops where the length of its output does not fit.
#[verifier::external_body]
fn base64_encode(bytes: &Vec<u8>) -> (r: String)
    requires
        bytes@.len() <= usize::MAX / 2,
    ensures
        r@ == base64_of(bytes@),
{
    base64::Engine::encode(&base64::engine::general_purpose::STANDARD, bytes)
}

/// The kind of an image by the ending of its address: PNG for `.png`, else
/// JPEG.
pub open spec fn image_kind(url: Seq<char>) -> Seq<char> {
    if ends_with(url, ".jpg"@) || ends_with(url, ".jpeg"@) {
        "image/jpeg"@
    } else if ends_with(url, ".png"@) {
        "image/png"@
    } else {
        "image/jpeg"@
    }
}

/// An icon as a data address.
pub open spec fn data_address(url: Seq<char>, bytes: Seq<u8>) -> Seq<char> {
    "data:"@ + image_kind(url) + ";base64,"@ + base64_of(bytes)
}

/// An icon as a data address, from the address it was fetched from and its
/// bytes. Fails with `Transport` where the icon is too long to encode.
pub fn fetch_achievement_icon(url: &str, bytes: &Vec<u8>) -> (r: Result<String, EngineError>)
    ensures
        match r {
            Ok(data) => bytes@.len() <= usize::MAX / 2 && data@ == data_address(url@, bytes@),
            Err(e) => e == EngineError::Transport && bytes@.len() > usize::MAX / 2,
        },
{
    if bytes.len() > usize::MAX / 2 {
        return Err(EngineError::Transport);
    }
    let chars = chars_of(url);
    let kind = if has_suffix(&chars, &chars_of(".jpg")) || has_suffix(&chars, &chars_of(".jpeg")) {
        "image/jpeg"
    } else if has_suffix(&chars, &chars_of(".png")) {
        "image/png"
    } else {
        "image/jpeg"
    };
    Ok(
        String::from_str("data:").concat(kind).concat(";base64,").concat(
            base64_encode(bytes).as_str(),
        ),
    )
}

} // verus!

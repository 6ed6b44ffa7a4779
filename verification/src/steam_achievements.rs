//! The remote schema: what the platform publishes about a game's achievements.

use crate::achievements::{Achievement, AchievementRecord, ProviderTag};
use crate::error::EngineError;
use crate::json::{JsonModel, JsonValue, view_of};
use crate::paths::{app_id_text, id_text};
use crate::text::{
    chars_of, decimal_chars, decimal_digits, decimal_value, is_digit, is_whitespace, parse_decimal,
    signed_chars, signed_digits, slice, string_of, whitespace,
};
use vstd::prelude::*;
use vstd::string::StringExecFns;

verus! {

/// The view of an optional text.
pub open spec fn opt_text(o: Option<String>) -> Option<Seq<char>> {
    match o {
        Some(s) => Some(s@),
        None => None,
    }
}

/// One achievement of a game's schema, as a mathematical value.
pub struct SchemaEntry {
    pub name: Seq<char>,
    pub display_name: Seq<char>,
    pub description: Option<Seq<char>>,
    pub icon: Option<Seq<char>>,
    pub icon_gray: Option<Seq<char>>,
    pub hidden: Option<u32>,
}

/// One achievement of a game's schema.
#[derive(Debug, Clone)]
pub struct SteamAchievementSchema {
    pub name: String,
    pub display_name: String,
    pub description: Option<String>,
    pub icon: Option<String>,
    pub icon_gray: Option<String>,
    pub hidden: Option<u32>,
}

impl View for SteamAchievementSchema {
    type V = SchemaEntry;

    open spec fn view(&self) -> SchemaEntry {
        SchemaEntry {
            name: self.name@,
            display_name: self.display_name@,
            description: opt_text(self.description),
            icon: opt_text(self.icon),
            icon_gray: opt_text(self.icon_gray),
            hidden: self.hidden,
        }
    }
}

/// The entries of a schema, each by its view.
pub open spec fn schema_view(schema: Seq<SteamAchievementSchema>) -> Seq<SchemaEntry> {
    Seq::new(schema.len(), |i: int| schema[i]@)
}

impl SchemaEntry {
    /// The description, empty where the schema gives none.
    pub open spec fn description_text(self) -> Seq<char> {
        match self.description {
            Some(d) => d,
            None => Seq::empty(),
        }
    }
}

impl SteamAchievementSchema {
    /// A copy of the entry.
    pub fn duplicate(&self) -> (r: SteamAchievementSchema)
        ensures
            r == *self,
    {
        SteamAchievementSchema {
            name: self.name.clone(),
            display_name: self.display_name.clone(),
            description: copy_opt(&self.description),
            icon: copy_opt(&self.icon),
            icon_gray: copy_opt(&self.icon_gray),
            hidden: self.hidden,
        }
    }
}

/// A copy of an optional text.
pub fn copy_opt(o: &Option<String>) -> (r: Option<String>)
    ensures
        r == *o,
{
    match o {
        Some(s) => Some(s.clone()),
        None => None,
    }
}

/// The share of all players who have one achievement, as a mathematical
/// value.
pub struct RateRecord {
    pub name: Seq<char>,
    pub percent: Seq<char>,
}

/// The share of all players who have one achievement. `percent` is the
/// decimal text of the number that the platform gave.
#[derive(Debug, Clone)]
pub struct GlobalRate {
    pub name: String,
    pub percent: String,
}

impl View for GlobalRate {
    type V = RateRecord;

    open spec fn view(&self) -> RateRecord {
        RateRecord { name: self.name@, percent: self.percent@ }
    }
}

/// The rates of a list, each by its view.
pub open spec fn rate_records(rates: Seq<GlobalRate>) -> Seq<RateRecord> {
    Seq::new(rates.len(), |i: int| rates[i]@)
}

/// The rates that a caller has, if it has any.
pub open spec fn rates_view(rates: Option<&Vec<GlobalRate>>) -> Option<Seq<RateRecord>> {
    match rates {
        Some(list) => Some(rate_records(list@)),
        None => None,
    }
}

/// The rate that the first `n` entries hold for a key: that of the last
/// entry with the key.
pub open spec fn rate_among(rates: Seq<RateRecord>, key: Seq<char>, n: nat) -> Option<Seq<char>>
    decreases n,
{
    if n == 0 || n > rates.len() {
        None
    } else if rates[n - 1].name == key {
        Some(rates[n - 1].percent)
    } else {
        rate_among(rates, key, (n - 1) as nat)
    }
}

/// The rate of a key, where rates are at hand and hold the key.
pub open spec fn rate_of(rates: Option<Seq<RateRecord>>, key: Seq<char>) -> Option<Seq<char>> {
    match rates {
        Some(list) => rate_among(list, key, list.len()),
        None => None,
    }
}

/// The rate of a key, where rates are at hand and hold the key.
pub fn find_rate(rates: Option<&Vec<GlobalRate>>, key: &String) -> (r: Option<String>)
    ensures
        opt_text(r) == rate_of(rates_view(rates), key@),
{
    match rates {
        Some(list) => {
            let mut n: usize = list.len();
            while n > 0
                invariant
                    n <= list@.len(),
                    rates_view(rates) == Some(rate_records(list@)),
                    rate_among(rate_records(list@), key@, list@.len()) == rate_among(
                        rate_records(list@),
                        key@,
                        n as nat,
                    ),
                decreases n,
            {
                if list[n - 1].name == *key {
                    return Some(list[n - 1].percent.clone());
                }
                n = n - 1;
            }
            None
        },
        None => None,
    }
}

/// One result of a search for games, as a mathematical value.
pub struct SearchRecord {
    pub app_id: u32,
    pub name: Seq<char>,
    pub header_image: Option<Seq<char>>,
}

/// One result of a search for games.
#[derive(Debug, Clone)]
pub struct SteamGameSearchResult {
    pub app_id: u32,
    pub name: String,
    pub header_image: Option<String>,
}

impl View for SteamGameSearchResult {
    type V = SearchRecord;

    open spec fn view(&self) -> SearchRecord {
        SearchRecord {
            app_id: self.app_id,
            name: self.name@,
            header_image: opt_text(self.header_image),
        }
    }
}

// ---------------------------------------------------------------------------
// Reading the answers of the web API
// ---------------------------------------------------------------------------
/// A member that may be missing: `None` for a missing member and for `null`.
pub open spec fn optional_member(v: JsonModel, key: Seq<char>) -> Option<JsonModel> {
    match v.member(key) {
        Some(JsonModel::Null) => None,
        Some(m) => Some(m),
        None => None,
    }
}

/// A text that may be missing: no text for a missing member, the text of a
/// string, and `None` for anything else.
pub open spec fn optional_text(v: JsonModel, key: Seq<char>) -> Option<Option<Seq<char>>> {
    match optional_member(v, key) {
        Some(m) => match m.text() {
            Some(t) => Some(Some(t)),
            None => None,
        },
        None => Some(None),
    }
}

/// A number of 32 bits without sign that may be missing.
pub open spec fn optional_u32(v: JsonModel, key: Seq<char>) -> Option<Option<u32>> {
    match optional_member(v, key) {
        Some(m) => match m.unsigned() {
            Some(n) => if n <= u32::MAX {
                Some(Some(n as u32))
            } else {
                None
            },
            None => None,
        },
        None => Some(None),
    }
}

/// A number of 64 bits with sign that may be missing.
pub open spec fn optional_i64(v: JsonModel, key: Seq<char>) -> Option<Option<i64>> {
    match optional_member(v, key) {
        Some(m) => match m.integer() {
            Some(n) => Some(Some(n)),
            None => None,
        },
        None => Some(None),
    }
}

/// A text that must be there.
pub open spec fn required_text(v: JsonModel, key: Seq<char>) -> Option<Seq<char>> {
    match v.member(key) {
        Some(m) => m.text(),
        None => None,
    }
}

/// One entry of a schema as the API gives it; `None` where it is not as
/// expected.
pub open spec fn schema_entry_of(item: JsonModel) -> Option<SchemaEntry> {
    match (
        required_text(item, "name"@),
        required_text(item, "displayName"@),
        optional_text(item, "description"@),
        optional_text(item, "icon"@),
        optional_text(item, "icongray"@),
        optional_u32(item, "hidden"@),
    ) {
        (Some(name), Some(display_name), Some(description), Some(icon), Some(icon_gray), Some(hidden)) => Some(
            SchemaEntry { name, display_name, description, icon, icon_gray, hidden },
        ),
        _ => None,
    }
}

/// The first `n` entries of a schema; `None` where one is not as expected.
pub open spec fn schema_entries(items: Seq<JsonModel>, n: nat) -> Option<Seq<SchemaEntry>>
    decreases n,
{
    if n == 0 || n > items.len() {
        Some(Seq::empty())
    } else {
        match (schema_entries(items, (n - 1) as nat), schema_entry_of(items[n - 1])) {
            (Some(before), Some(e)) => Some(before.push(e)),
            _ => None,
        }
    }
}

/// An object that may be missing: `Ok(None)` for a missing member and for
/// `null`, the object, and `Err` for anything else.
pub open spec fn optional_object(v: JsonModel, key: Seq<char>) -> Option<Option<JsonModel>> {
    match optional_member(v, key) {
        Some(m) => if m is Object {
            Some(Some(m))
        } else {
            None
        },
        None => Some(None),
    }
}

/// An array that may be missing.
pub open spec fn optional_items(v: JsonModel, key: Seq<char>) -> Option<Option<Seq<JsonModel>>> {
    match optional_member(v, key) {
        Some(m) => match m.items() {
            Some(items) => Some(Some(items)),
            None => None,
        },
        None => Some(None),
    }
}

/// The list that an answer holds under three names, one within the other;
/// `Ok(None)` where one of them is missing, `Err` where the answer is not as
/// expected.
pub open spec fn nested_items(doc: JsonModel, outer: Seq<char>, middle: Option<Seq<char>>, inner: Seq<char>)
    -> Option<Option<Seq<JsonModel>>> {
    if !(doc is Object) {
        None
    } else {
        match optional_object(doc, outer) {
            Some(Some(a)) => match middle {
                Some(name) => match optional_object(a, name) {
                    Some(Some(b)) => optional_items(b, inner),
                    Some(None) => Some(None),
                    None => None,
                },
                None => optional_items(a, inner),
            },
            Some(None) => Some(None),
            None => None,
        }
    }
}

/// The schema that an answer of the API holds: `Parse` where the answer is
/// not as expected, `NotFound` where it holds no schema.
pub open spec fn schema_of(doc: JsonModel) -> Result<Seq<SchemaEntry>, EngineError> {
    match nested_items(doc, "game"@, Some("availableGameStats"@), "achievements"@) {
        Some(Some(items)) => match schema_entries(items, items.len()) {
            Some(entries) => Ok(entries),
            None => Err(EngineError::Parse),
        },
        Some(None) => Err(EngineError::NotFound),
        None => Err(EngineError::Parse),
    }
}

/// A member that may be missing.
pub fn get_optional<'a>(v: &'a JsonValue, key: &str) -> (r: Option<&'a JsonValue>)
    ensures
        view_of(r) == optional_member(v@, key@),
{
    match v.get(key) {
        Some(m) => match m {
            JsonValue::Null => None,
            _ => Some(m),
        },
        None => None,
    }
}

/// A text that may be missing; `Err` where the member is no text.
pub fn get_optional_text(v: &JsonValue, key: &str) -> (r: Result<Option<String>, EngineError>)
    ensures
        match r {
            Ok(t) => optional_text(v@, key@) == Some(opt_text(t)),
            Err(e) => e == EngineError::Parse && optional_text(v@, key@) is None,
        },
{
    match get_optional(v, key) {
        Some(m) => match m.as_str() {
            Some(t) => Ok(Some(t.clone())),
            None => Err(EngineError::Parse),
        },
        None => Ok(None),
    }
}

/// A number of 32 bits without sign that may be missing.
pub fn get_optional_u32(v: &JsonValue, key: &str) -> (r: Result<Option<u32>, EngineError>)
    ensures
        match r {
            Ok(n) => optional_u32(v@, key@) == Some(n),
            Err(e) => e == EngineError::Parse && optional_u32(v@, key@) is None,
        },
{
    match get_optional(v, key) {
        Some(m) => match m.as_u64() {
            Some(n) => if n <= u32::MAX as u64 {
                Ok(Some(n as u32))
            } else {
                Err(EngineError::Parse)
            },
            None => Err(EngineError::Parse),
        },
        None => Ok(None),
    }
}

/// A number of 64 bits with sign that may be missing.
pub fn get_optional_i64(v: &JsonValue, key: &str) -> (r: Result<Option<i64>, EngineError>)
    ensures
        match r {
            Ok(n) => optional_i64(v@, key@) == Some(n),
            Err(e) => e == EngineError::Parse && optional_i64(v@, key@) is None,
        },
{
    match get_optional(v, key) {
        Some(m) => match m.as_i64() {
            Some(n) => Ok(Some(n)),
            None => Err(EngineError::Parse),
        },
        None => Ok(None),
    }
}

/// A text that must be there.
pub fn get_required_text(v: &JsonValue, key: &str) -> (r: Result<String, EngineError>)
    ensures
        match r {
            Ok(t) => required_text(v@, key@) == Some(t@),
            Err(e) => e == EngineError::Parse && required_text(v@, key@) is None,
        },
{
    match v.get(key) {
        Some(m) => match m.as_str() {
            Some(t) => Ok(t.clone()),
            None => Err(EngineError::Parse),
        },
        None => Err(EngineError::Parse),
    }
}

/// An object that may be missing.
pub fn get_optional_object<'a>(v: &'a JsonValue, key: &str) -> (r: Result<
    Option<&'a JsonValue>,
    EngineError,
>)
    ensures
        match r {
            Ok(o) => optional_object(v@, key@) == Some(view_of(o)),
            Err(e) => e == EngineError::Parse && optional_object(v@, key@) is None,
        },
{
    match get_optional(v, key) {
        Some(m) => match m {
            JsonValue::Object(_) => Ok(Some(m)),
            _ => Err(EngineError::Parse),
        },
        None => Ok(None),
    }
}

/// The views of a list of documents.
pub open spec fn item_trees(items: Seq<JsonValue>) -> Seq<JsonModel> {
    Seq::new(items.len(), |i: int| items[i]@)
}

/// The view of an optional list of documents.
pub open spec fn opt_item_trees(items: Option<&Vec<JsonValue>>) -> Option<Seq<JsonModel>> {
    match items {
        Some(list) => Some(item_trees(list@)),
        None => None,
    }
}

/// An array that may be missing.
pub fn get_optional_items<'a>(v: &'a JsonValue, key: &str) -> (r: Result<
    Option<&'a Vec<JsonValue>>,
    EngineError,
>)
    ensures
        match r {
            Ok(o) => optional_items(v@, key@) == Some(opt_item_trees(o)),
            Err(e) => e == EngineError::Parse && optional_items(v@, key@) is None,
        },
{
    match get_optional(v, key) {
        Some(m) => match m.as_array() {
            Some(items) => Ok(Some(items)),
            None => Err(EngineError::Parse),
        },
        None => Ok(None),
    }
}

/// The list that an answer holds under three names, one within the other.
pub fn get_nested_items<'a>(doc: &'a JsonValue, outer: &str, middle: Option<&str>, inner: &str) -> (r:
    Result<Option<&'a Vec<JsonValue>>, EngineError>)
    ensures
        match r {
            Ok(o) => nested_items(
                doc@,
                outer@,
                match middle {
                    Some(m) => Some(m@),
                    None => None,
                },
                inner@,
            ) == Some(opt_item_trees(o)),
            Err(e) => e == EngineError::Parse && nested_items(
                doc@,
                outer@,
                match middle {
                    Some(m) => Some(m@),
                    None => None,
                },
                inner@,
            ) is None,
        },
{
    match doc {
        JsonValue::Object(_) => {},
        _ => {
            return Err(EngineError::Parse);
        },
    }
    let a = match get_optional_object(doc, outer) {
        Ok(Some(a)) => a,
        Ok(None) => {
            return Ok(None);
        },
        Err(e) => {
            return Err(e);
        },
    };
    match middle {
        Some(name) => {
            match get_optional_object(a, name) {
                Ok(Some(b)) => get_optional_items(b, inner),
                Ok(None) => Ok(None),
                Err(e) => Err(e),
            }
        },
        None => get_optional_items(a, inner),
    }
}

/// One entry of a schema as the API gives it.
pub fn read_schema_entry(item: &JsonValue) -> (r: Result<SteamAchievementSchema, EngineError>)
    ensures
        match r {
            Ok(e) => schema_entry_of(item@) == Some(e@),
            Err(e) => e == EngineError::Parse && schema_entry_of(item@) is None,
        },
{
    let name = get_required_text(item, "name")?;
    let display_name = get_required_text(item, "displayName")?;
    let description = get_optional_text(item, "description")?;
    let icon = get_optional_text(item, "icon")?;
    let icon_gray = get_optional_text(item, "icongray")?;
    let hidden = get_optional_u32(item, "hidden")?;
    Ok(SteamAchievementSchema { name, display_name, description, icon, icon_gray, hidden })
}

/// The schema that an answer of the API holds.
pub fn read_schema(doc: &JsonValue) -> (r: Result<Vec<SteamAchievementSchema>, EngineError>)
    ensures
        match r {
            Ok(list) => schema_of(doc@) == Ok::<Seq<SchemaEntry>, EngineError>(schema_view(list@)),
            Err(e) => schema_of(doc@) == Err::<Seq<SchemaEntry>, EngineError>(e),
        },
{
    let items = match get_nested_items(doc, "game", Some("availableGameStats"), "achievements") {
        Ok(Some(items)) => items,
        Ok(None) => {
            return Err(EngineError::NotFound);
        },
        Err(e) => {
            return Err(e);
        },
    };
    let mut out: Vec<SteamAchievementSchema> = Vec::new();
    let mut i: usize = 0;
    while i < items.len()
        invariant
            i <= items@.len(),
            schema_of(doc@) == match schema_entries(item_trees(items@), items@.len() as nat) {
                Some(entries) => Ok::<Seq<SchemaEntry>, EngineError>(entries),
                None => Err::<Seq<SchemaEntry>, EngineError>(EngineError::Parse),
            },
            schema_entries(item_trees(items@), i as nat) == Some(schema_view(out@)),
        decreases items@.len() - i,
    {
        match read_schema_entry(&items[i]) {
            Ok(e) => {
                out.push(e);
            },
            Err(e) => {
                proof {
                    lemma_schema_entries_fail(
                        item_trees(items@),
                        (i + 1) as nat,
                        items@.len() as nat,
                    );
                }
                return Err(e);
            },
        }
        i = i + 1;
    }
    Ok(out)
}

/// Once an entry was not as expected, more entries do not help.
pub proof fn lemma_schema_entries_fail(items: Seq<JsonModel>, n: nat, m: nat)
    requires
        n <= m <= items.len(),
        schema_entries(items, n) is None,
    ensures
        schema_entries(items, m) is None,
    decreases m,
{
    if n < m {
        lemma_schema_entries_fail(items, n, (m - 1) as nat);
    }
}

// ---------------------------------------------------------------------------
// Global rates
// ---------------------------------------------------------------------------
/// The decimal text of a number of a document; `None` for anything but a
/// number.
pub open spec fn number_text(v: JsonModel) -> Option<Seq<char>> {
    match v {
        JsonModel::Integer(i) => Some(signed_digits(i as int)),
        JsonModel::Unsigned(u) => Some(decimal_digits(u as nat)),
        JsonModel::Decimal(t) => Some(t),
        _ => None,
    }
}

/// One rate as the API gives it; `None` where it is not as expected.
pub open spec fn rate_of_item(item: JsonModel) -> Option<RateRecord> {
    match (required_text(item, "name"@), item.member("percent"@)) {
        (Some(name), Some(p)) => match number_text(p) {
            Some(percent) => Some(RateRecord { name, percent }),
            None => None,
        },
        _ => None,
    }
}

/// The first `n` rates of a list; `None` where one is not as expected.
pub open spec fn rate_entries(items: Seq<JsonModel>, n: nat) -> Option<Seq<RateRecord>>
    decreases n,
{
    if n == 0 || n > items.len() {
        Some(Seq::empty())
    } else {
        match (rate_entries(items, (n - 1) as nat), rate_of_item(items[n - 1])) {
            (Some(before), Some(r)) => Some(before.push(r)),
            _ => None,
        }
    }
}

/// The global rates that an answer of the API holds: none where the answer
/// holds no list; `Parse` where it is not as expected.
pub open spec fn rates_of(doc: JsonModel) -> Result<Seq<RateRecord>, EngineError> {
    match nested_items(doc, "achievementpercentages"@, None, "achievements"@) {
        Some(Some(items)) => match rate_entries(items, items.len()) {
            Some(rates) => Ok(rates),
            None => Err(EngineError::Parse),
        },
        Some(None) => Ok(Seq::empty()),
        None => Err(EngineError::Parse),
    }
}

/// The decimal text of a number of a document.
pub fn read_number_text(v: &JsonValue) -> (r: Option<String>)
    ensures
        opt_text(r) == number_text(v@),
{
    match v {
        JsonValue::Integer(i) => Some(string_of(&signed_chars(*i))),
        JsonValue::Unsigned(u) => Some(string_of(&decimal_chars(*u))),
        JsonValue::Decimal(t) => Some(t.clone()),
        _ => None,
    }
}

/// One rate as the API gives it.
pub fn read_rate(item: &JsonValue) -> (r: Result<GlobalRate, EngineError>)
    ensures
        match r {
            Ok(rate) => rate_of_item(item@) == Some(rate@),
            Err(e) => e == EngineError::Parse && rate_of_item(item@) is None,
        },
{
    let name = get_required_text(item, "name")?;
    let percent = match item.get("percent") {
        Some(p) => match read_number_text(p) {
            Some(t) => t,
            None => {
                return Err(EngineError::Parse);
            },
        },
        None => {
            return Err(EngineError::Parse);
        },
    };
    Ok(GlobalRate { name, percent })
}

/// The global rates that an answer of the API holds.
pub fn read_global_rates(doc: &JsonValue) -> (r: Result<Vec<GlobalRate>, EngineError>)
    ensures
        match r {
            Ok(list) => rates_of(doc@) == Ok::<Seq<RateRecord>, EngineError>(rate_records(list@)),
            Err(e) => rates_of(doc@) == Err::<Seq<RateRecord>, EngineError>(e),
        },
{
    let mut out: Vec<GlobalRate> = Vec::new();
    assert(rate_records(out@) == Seq::<RateRecord>::empty());
    let items = match get_nested_items(doc, "achievementpercentages", None, "achievements") {
        Ok(Some(items)) => items,
        Ok(None) => {
            return Ok(out);
        },
        Err(e) => {
            return Err(e);
        },
    };
    let mut i: usize = 0;
    while i < items.len()
        invariant
            i <= items@.len(),
            rates_of(doc@) == match rate_entries(item_trees(items@), items@.len() as nat) {
                Some(rates) => Ok::<Seq<RateRecord>, EngineError>(rates),
                None => Err::<Seq<RateRecord>, EngineError>(EngineError::Parse),
            },
            rate_entries(item_trees(items@), i as nat) == Some(rate_records(out@)),
        decreases items@.len() - i,
    {
        match read_rate(&items[i]) {
            Ok(rate) => {
                out.push(rate);
            },
            Err(e) => {
                proof {
                    lemma_rate_entries_fail(item_trees(items@), (i + 1) as nat, items@.len() as nat);
                }
                return Err(e);
            },
        }
        i = i + 1;
    }
    Ok(out)
}

/// Once a rate was not as expected, more rates do not help.
pub proof fn lemma_rate_entries_fail(items: Seq<JsonModel>, n: nat, m: nat)
    requires
        n <= m <= items.len(),
        rate_entries(items, n) is None,
    ensures
        rate_entries(items, m) is None,
    decreases m,
{
    if n < m {
        lemma_rate_entries_fail(items, n, (m - 1) as nat);
    }
}

// ---------------------------------------------------------------------------
// The progress of a player
// ---------------------------------------------------------------------------
/// What the API says of one achievement of a player, as a mathematical
/// value.
pub struct ProgressRecord {
    pub apiname: Seq<char>,
    pub achieved: u32,
    pub unlocktime: Option<i64>,
}

/// What the API says of one achievement of a player.
#[derive(Debug, Clone)]
pub struct PlayerAchievement {
    pub apiname: String,
    pub achieved: u32,
    pub unlocktime: Option<i64>,
}

impl View for PlayerAchievement {
    type V = ProgressRecord;

    open spec fn view(&self) -> ProgressRecord {
        ProgressRecord { apiname: self.apiname@, achieved: self.achieved, unlocktime: self.unlocktime }
    }
}

/// The entries of a list, each by its view.
pub open spec fn progress_records(list: Seq<PlayerAchievement>) -> Seq<ProgressRecord> {
    Seq::new(list.len(), |i: int| list[i]@)
}

/// The progress that a caller has, if it has any.
pub open spec fn progress_view(progress: Option<&Vec<PlayerAchievement>>) -> Option<
    Seq<ProgressRecord>,
> {
    match progress {
        Some(list) => Some(progress_records(list@)),
        None => None,
    }
}

/// One entry of a player's progress as the API gives it; `None` where it is
/// not as expected.
pub open spec fn progress_of_item(item: JsonModel) -> Option<ProgressRecord> {
    match (
        required_text(item, "apiname"@),
        item.member("achieved"@),
        optional_i64(item, "unlocktime"@),
    ) {
        (Some(apiname), Some(a), Some(unlocktime)) => match a.unsigned() {
            Some(n) => if n <= u32::MAX {
                Some(ProgressRecord { apiname, achieved: n as u32, unlocktime })
            } else {
                None
            },
            None => None,
        },
        _ => None,
    }
}

/// The first `n` entries of a player's progress; `None` where one is not as
/// expected.
pub open spec fn progress_entries(items: Seq<JsonModel>, n: nat) -> Option<Seq<ProgressRecord>>
    decreases n,
{
    if n == 0 || n > items.len() {
        Some(Seq::empty())
    } else {
        match (progress_entries(items, (n - 1) as nat), progress_of_item(items[n - 1])) {
            (Some(before), Some(p)) => Some(before.push(p)),
            _ => None,
        }
    }
}

/// The progress that an answer of the API holds: `Unavailable` where it
/// holds none, as for a private profile; `Parse` where it is not as
/// expected.
pub open spec fn progress_of(doc: JsonModel) -> Result<Seq<ProgressRecord>, EngineError> {
    match nested_items(doc, "playerstats"@, None, "achievements"@) {
        Some(Some(items)) => match progress_entries(items, items.len()) {
            Some(list) => Ok(list),
            None => Err(EngineError::Parse),
        },
        Some(None) => Err(EngineError::Unavailable),
        None => Err(EngineError::Parse),
    }
}

/// One entry of a player's progress as the API gives it.
pub fn read_progress_entry(item: &JsonValue) -> (r: Result<PlayerAchievement, EngineError>)
    ensures
        match r {
            Ok(p) => progress_of_item(item@) == Some(p@),
            Err(e) => e == EngineError::Parse && progress_of_item(item@) is None,
        },
{
    let apiname = get_required_text(item, "apiname")?;
    let achieved = match item.get("achieved") {
        Some(a) => match a.as_u64() {
            Some(n) => if n <= u32::MAX as u64 {
                n as u32
            } else {
                return Err(EngineError::Parse);
            },
            None => {
                return Err(EngineError::Parse);
            },
        },
        None => {
            return Err(EngineError::Parse);
        },
    };
    let unlocktime = get_optional_i64(item, "unlocktime")?;
    Ok(PlayerAchievement { apiname, achieved, unlocktime })
}

/// The progress that an answer of the API holds.
pub fn read_player_achievements(doc: &JsonValue) -> (r: Result<Vec<PlayerAchievement>, EngineError>)
    ensures
        match r {
            Ok(list) => progress_of(doc@) == Ok::<Seq<ProgressRecord>, EngineError>(
                progress_records(list@),
            ),
            Err(e) => progress_of(doc@) == Err::<Seq<ProgressRecord>, EngineError>(e),
        },
{
    let items = match get_nested_items(doc, "playerstats", None, "achievements") {
        Ok(Some(items)) => items,
        Ok(None) => {
            return Err(EngineError::Unavailable);
        },
        Err(e) => {
            return Err(e);
        },
    };
    let mut out: Vec<PlayerAchievement> = Vec::new();
    let mut i: usize = 0;
    while i < items.len()
        invariant
            i <= items@.len(),
            progress_of(doc@) == match progress_entries(item_trees(items@), items@.len() as nat) {
                Some(list) => Ok::<Seq<ProgressRecord>, EngineError>(list),
                None => Err::<Seq<ProgressRecord>, EngineError>(EngineError::Parse),
            },
            progress_entries(item_trees(items@), i as nat) == Some(progress_records(out@)),
        decreases items@.len() - i,
    {
        match read_progress_entry(&items[i]) {
            Ok(p) => {
                out.push(p);
            },
            Err(e) => {
                proof {
                    lemma_progress_entries_fail(
                        item_trees(items@),
                        (i + 1) as nat,
                        items@.len() as nat,
                    );
                }
                return Err(e);
            },
        }
        i = i + 1;
    }
    Ok(out)
}

/// Once an entry was not as expected, more entries do not help.
pub proof fn lemma_progress_entries_fail(items: Seq<JsonModel>, n: nat, m: nat)
    requires
        n <= m <= items.len(),
        progress_entries(items, n) is None,
    ensures
        progress_entries(items, m) is None,
    decreases m,
{
    if n < m {
        lemma_progress_entries_fail(items, n, (m - 1) as nat);
    }
}

/// The first entry of a player's progress among `list[from..]` for a key.
pub open spec fn progress_for(list: Seq<ProgressRecord>, key: Seq<char>, from: int) -> Option<
    ProgressRecord,
>
    decreases list.len() - from,
{
    if from < 0 || from >= list.len() {
        None
    } else if list[from].apiname == key {
        Some(list[from])
    } else {
        progress_for(list, key, from + 1)
    }
}

/// The row of one schema entry under the web API: unlocked where the
/// player's progress says so, locked without progress.
pub open spec fn remote_row(
    app_id: u32,
    game_name: Seq<char>,
    entry: SchemaEntry,
    progress: Option<Seq<ProgressRecord>>,
    rates: Option<Seq<RateRecord>>,
    now: i64,
) -> AchievementRecord {
    let info = match progress {
        Some(list) => progress_for(list, entry.name, 0),
        None => None,
    };
    let achieved = match info {
        Some(p) => p.achieved == 1,
        None => false,
    };
    AchievementRecord {
        id: None,
        app_id,
        game_name,
        achievement_id: entry.name,
        display_name: entry.display_name,
        description: entry.description_text(),
        icon_url: entry.icon,
        icon_gray_url: entry.icon_gray,
        hidden: entry.hidden == Some(1u32),
        achieved,
        unlock_time: match info {
            Some(p) => if achieved {
                p.unlocktime
            } else {
                None
            },
            None => None,
        },
        source: ProviderTag::RemoteApi,
        last_updated: now,
        global_unlock_percentage: rate_of(rates, entry.name),
    }
}

/// The rows of a game under the web API: one for each schema entry.
pub open spec fn remote_rows(
    app_id: u32,
    game_name: Seq<char>,
    schema: Seq<SchemaEntry>,
    progress: Option<Seq<ProgressRecord>>,
    rates: Option<Seq<RateRecord>>,
    now: i64,
) -> Seq<AchievementRecord> {
    Seq::new(
        schema.len(),
        |i: int| remote_row(app_id, game_name, schema[i], progress, rates, now),
    )
}

/// The entry of a player's progress for a key.
fn find_progress(list: &Vec<PlayerAchievement>, key: &String) -> (r: Option<usize>)
    ensures
        match r {
            Some(i) => i < list@.len() && progress_for(progress_records(list@), key@, 0) == Some(
                list@[i as int]@,
            ),
            None => progress_for(progress_records(list@), key@, 0) is None,
        },
{
    let mut i: usize = 0;
    while i < list.len()
        invariant
            i <= list@.len(),
            progress_for(progress_records(list@), key@, 0) == progress_for(
                progress_records(list@),
                key@,
                i as int,
            ),
        decreases list@.len() - i,
    {
        if list[i].apiname == *key {
            return Some(i);
        }
        i = i + 1;
    }
    None
}

/// Puts a game's schema and a player's progress together: one row for each
/// schema entry under the web API.
pub fn scan_achievements_for_game(
    app_id: u32,
    game_name: &str,
    schema: &Vec<SteamAchievementSchema>,
    progress: Option<&Vec<PlayerAchievement>>,
    rates: Option<&Vec<GlobalRate>>,
    now: i64,
) -> (rows: Vec<Achievement>)
    ensures
        crate::achievements::records(rows@) == remote_rows(
            app_id,
            game_name@,
            schema_view(schema@),
            progress_view(progress),
            rates_view(rates),
            now,
        ),
        forall|i: int| 0 <= i < rows@.len() ==> (#[trigger] rows@[i])@.wf(),
{
    let mut rows: Vec<Achievement> = Vec::new();
    let mut i: usize = 0;
    while i < schema.len()
        invariant
            i <= schema@.len(),
            rows@.len() == i,
            forall|j: int|
                0 <= j < i ==> (#[trigger] rows@[j])@ == remote_row(
                    app_id,
                    game_name@,
                    schema_view(schema@)[j],
                    progress_view(progress),
                    rates_view(rates),
                    now,
                ),
        decreases schema@.len() - i,
    {
        let e = &schema[i];
        let info: Option<(bool, Option<i64>)> = match progress {
            Some(list) => match find_progress(list, &e.name) {
                Some(k) => Some((list[k].achieved == 1, list[k].unlocktime)),
                None => None,
            },
            None => None,
        };
        let achieved = match info {
            Some(p) => p.0,
            None => false,
        };
        let unlock_time = match info {
            Some(p) => if achieved {
                p.1
            } else {
                None
            },
            None => None,
        };
        let hidden = match e.hidden {
            Some(h) => h == 1,
            None => false,
        };
        rows.push(
            Achievement {
                id: None,
                app_id,
                game_name: game_name.to_owned(),
                achievement_id: e.name.clone(),
                display_name: e.display_name.clone(),
                description: match &e.description {
                    Some(d) => d.clone(),
                    None => String::new(),
                },
                icon_url: copy_opt(&e.icon),
                icon_gray_url: copy_opt(&e.icon_gray),
                hidden,
                achieved,
                unlock_time,
                source: ProviderTag::RemoteApi,
                last_updated: now,
                global_unlock_percentage: find_rate(rates, &e.name),
            },
        );
        i = i + 1;
    }
    assert(crate::achievements::records(rows@) == remote_rows(
        app_id,
        game_name@,
        schema_view(schema@),
        progress_view(progress),
        rates_view(rates),
        now,
    ));
    rows
}

// ---------------------------------------------------------------------------
// The search for games
// ---------------------------------------------------------------------------
/// One item of a search as the store gives it: the result and the kind of
/// the item; `None` where it is not as expected.
pub open spec fn search_item(item: JsonModel) -> Option<(SearchRecord, Seq<char>)> {
    match (
        item.member("id"@),
        required_text(item, "name"@),
        required_text(item, "type"@),
        optional_text(item, "tiny_image"@),
    ) {
        (Some(id), Some(name), Some(kind), Some(header_image)) => match id.unsigned() {
            Some(n) => if n <= u32::MAX {
                Some((SearchRecord { app_id: n as u32, name, header_image }, kind))
            } else {
                None
            },
            None => None,
        },
        _ => None,
    }
}

/// Whether an item of this kind is a game.
pub open spec fn is_game_kind(kind: Seq<char>) -> bool {
    kind == "app"@ || kind == "game"@
}

/// The games among the first `n` items of a search, twenty at most; `None`
/// where an item is not as expected.
pub open spec fn search_results(items: Seq<JsonModel>, n: nat) -> Option<Seq<SearchRecord>>
    decreases n,
{
    if n == 0 || n > items.len() {
        Some(Seq::empty())
    } else {
        match (search_results(items, (n - 1) as nat), search_item(items[n - 1])) {
            (Some(before), Some((r, kind))) => if is_game_kind(kind) && before.len() < 20 {
                Some(before.push(r))
            } else {
                Some(before)
            },
            _ => None,
        }
    }
}

/// The results that an answer of the store holds: the first twenty games;
/// none where the answer holds no items; `Parse` where it is not as
/// expected.
pub open spec fn search_of(doc: JsonModel) -> Result<Seq<SearchRecord>, EngineError> {
    if !(doc is Object) {
        Err(EngineError::Parse)
    } else {
        match optional_items(doc, "items"@) {
            Some(Some(items)) => match search_results(items, items.len()) {
                Some(list) => Ok(list),
                None => Err(EngineError::Parse),
            },
            Some(None) => Ok(Seq::empty()),
            None => Err(EngineError::Parse),
        }
    }
}

/// The results of a list, each by its view.
pub open spec fn search_records(list: Seq<SteamGameSearchResult>) -> Seq<SearchRecord> {
    Seq::new(list.len(), |i: int| list[i]@)
}

/// One item of a search as the store gives it.
pub fn read_search_item(item: &JsonValue) -> (r: Result<(SteamGameSearchResult, String), EngineError>)
    ensures
        match r {
            Ok(found) => search_item(item@) == Some((found.0@, found.1@)),
            Err(e) => e == EngineError::Parse && search_item(item@) is None,
        },
{
    let app_id = match item.get("id") {
        Some(id) => match id.as_u64() {
            Some(n) => if n <= u32::MAX as u64 {
                n as u32
            } else {
                return Err(EngineError::Parse);
            },
            None => {
                return Err(EngineError::Parse);
            },
        },
        None => {
            return Err(EngineError::Parse);
        },
    };
    let name = get_required_text(item, "name")?;
    let kind = get_required_text(item, "type")?;
    let header_image = get_optional_text(item, "tiny_image")?;
    Ok((SteamGameSearchResult { app_id, name, header_image }, kind))
}

/// The results that an answer of the store holds.
pub fn read_search_results(doc: &JsonValue) -> (r: Result<Vec<SteamGameSearchResult>, EngineError>)
    ensures
        match r {
            Ok(list) => search_of(doc@) == Ok::<Seq<SearchRecord>, EngineError>(
                search_records(list@),
            ),
            Err(e) => search_of(doc@) == Err::<Seq<SearchRecord>, EngineError>(e),
        },
{
    match doc {
        JsonValue::Object(_) => {},
        _ => {
            return Err(EngineError::Parse);
        },
    }
    let mut out: Vec<SteamGameSearchResult> = Vec::new();
    assert(search_records(out@) == Seq::<SearchRecord>::empty());
    let items = match get_optional_items(doc, "items") {
        Ok(Some(items)) => items,
        Ok(None) => {
            return Ok(out);
        },
        Err(e) => {
            return Err(e);
        },
    };
    let app = "app".to_owned();
    let game = "game".to_owned();
    let mut i: usize = 0;
    while i < items.len()
        invariant
            i <= items@.len(),
            app@ == "app"@,
            game@ == "game"@,
            search_of(doc@) == match search_results(item_trees(items@), items@.len() as nat) {
                Some(list) => Ok::<Seq<SearchRecord>, EngineError>(list),
                None => Err::<Seq<SearchRecord>, EngineError>(EngineError::Parse),
            },
            search_results(item_trees(items@), i as nat) == Some(search_records(out@)),
        decreases items@.len() - i,
    {
        match read_search_item(&items[i]) {
            Ok(found) => {
                if (found.1 == app || found.1 == game) && out.len() < 20 {
                    out.push(found.0);
                }
            },
            Err(e) => {
                proof {
                    lemma_search_results_fail(
                        item_trees(items@),
                        (i + 1) as nat,
                        items@.len() as nat,
                    );
                }
                return Err(e);
            },
        }
        i = i + 1;
    }
    Ok(out)
}

/// Once an item was not as expected, more items do not help.
pub proof fn lemma_search_results_fail(items: Seq<JsonModel>, n: nat, m: nat)
    requires
        n <= m <= items.len(),
        search_results(items, n) is None,
    ensures
        search_results(items, m) is None,
    decreases m,
{
    if n < m {
        lemma_search_results_fail(items, n, (m - 1) as nat);
    }
}

// ---------------------------------------------------------------------------
// The requests
// ---------------------------------------------------------------------------
/// A text as `urlencoding::encode` encodes it for a URL.
pub uninterp spec fn url_encoded(s: Seq<char>) -> Seq<char>;

/// Calls `urlencoding::encode`: every byte of the text in UTF-8 is written
/// as `%` and two digits, but for letters, digits, `-`, `_`, `.` and `~`.
/// What it returns depends on the text alone.
#[verifier::external_body]
fn url_encode(s: &str) -> (r: String)
    ensures
        r@ == url_encoded(s@),
{
    urlencoding::encode(s).into_owned()
}

/// Whether a text holds white space only.
pub open spec fn is_blank(s: Seq<char>) -> bool {
    forall|i: int| 0 <= i < s.len() ==> whitespace(#[trigger] s[i])
}

/// The address that gives the schema of a game.
pub open spec fn schema_address(api_key: Seq<char>, app_id: u32) -> Seq<char> {
    "https://api.steampowered.com/ISteamUserStats/GetSchemaForGame/v2/?key="@ + api_key
        + "&appid="@ + id_text(app_id)
}

/// The address that gives the global rates of a game.
pub open spec fn rates_address(app_id: u32) -> Seq<char> {
    "https://api.steampowered.com/ISteamUserStats/GetGlobalAchievementPercentagesForApp/v2/?gameid="@
        + id_text(app_id)
}

/// The address that gives the progress of a player in a game.
pub open spec fn progress_address(api_key: Option<Seq<char>>, app_id: u32, steam_id: u64) -> Seq<
    char,
> {
    let base = "https://api.steampowered.com/ISteamUserStats/GetPlayerAchievements/v1/?appid="@
        + id_text(app_id) + "&steamid="@ + decimal_digits(steam_id as nat);
    match api_key {
        Some(key) => base + "&key="@ + key,
        None => base,
    }
}

/// The address that searches the store for a name.
pub open spec fn search_address(query: Seq<char>) -> Seq<char> {
    "https://store.steampowered.com/api/storesearch/?term="@ + url_encoded(query)
        + "&l=english&cc=US"@
}

/// The id of a player that a text writes: digits, with a `+` before them or
/// without, that write a number of 64 bits.
pub open spec fn steam_id_of(text: Seq<char>) -> Option<u64> {
    let digits = without_plus(text);
    if digits.len() > 0 && all_digits(digits) && decimal_value(digits) <= u64::MAX {
        Some(decimal_value(digits) as u64)
    } else {
        None
    }
}

/// A text without its leading `+`, if it has one.
pub open spec fn without_plus(text: Seq<char>) -> Seq<char> {
    if text.len() > 0 && text[0] == '+' {
        text.subrange(1, text.len() as int)
    } else {
        text
    }
}

/// Whether a text holds digits only.
pub open spec fn all_digits(s: Seq<char>) -> bool {
    forall|i: int| 0 <= i < s.len() ==> is_digit(#[trigger] s[i])
}

/// The client of the platform's web API, as it is configured.
pub struct SteamAchievementClient {
    api_key: Option<String>,
    steam_id: Option<u64>,
}

impl SteamAchievementClient {
    /// The key of the API.
    pub closed spec fn api_key(&self) -> Option<Seq<char>> {
        opt_text(self.api_key)
    }

    /// The id of the player.
    pub closed spec fn steam_id(&self) -> Option<u64> {
        self.steam_id
    }

    /// A client with this key, for the player whose id the text writes.
    pub fn new(api_key: Option<String>, steam_id: Option<String>) -> (r: SteamAchievementClient)
        ensures
            r.api_key() == opt_text(api_key),
            r.steam_id() == match steam_id {
                Some(text) => steam_id_of(text@),
                None => None,
            },
    {
        let id = match &steam_id {
            Some(text) => parse_steam_id(text.as_str()),
            None => None,
        };
        SteamAchievementClient { api_key, steam_id: id }
    }

    /// The id of the player.
    pub fn player(&self) -> (r: Option<u64>)
        ensures
            r == self.steam_id(),
    {
        self.steam_id
    }

    /// The address that gives the schema of a game. Fails with
    /// `NotConfigured` without a key.
    pub fn get_achievement_schema(&self, app_id: u32) -> (r: Result<String, EngineError>)
        ensures
            match r {
                Ok(url) => self.api_key() matches Some(key) && url@ == schema_address(key, app_id),
                Err(e) => e == EngineError::NotConfigured && self.api_key() is None,
            },
    {
        match &self.api_key {
            Some(key) => Ok(
                String::from_str(
                    "https://api.steampowered.com/ISteamUserStats/GetSchemaForGame/v2/?key=",
                ).concat(key.as_str()).concat("&appid=").concat(app_id_text(app_id).as_str()),
            ),
            None => Err(EngineError::NotConfigured),
        }
    }

    /// The address that gives the global rates of a game.
    pub fn get_global_achievement_percentages(&self, app_id: u32) -> (r: String)
        ensures
            r@ == rates_address(app_id),
    {
        String::from_str(
            "https://api.steampowered.com/ISteamUserStats/GetGlobalAchievementPercentagesForApp/v2/?gameid=",
        ).concat(app_id_text(app_id).as_str())
    }

    /// The address that gives the progress of a player in a game.
    pub fn get_player_achievements(&self, app_id: u32, steam_id: u64) -> (r: String)
        ensures
            r@ == progress_address(self.api_key(), app_id, steam_id),
    {
        let base = String::from_str(
            "https://api.steampowered.com/ISteamUserStats/GetPlayerAchievements/v1/?appid=",
        ).concat(app_id_text(app_id).as_str()).concat("&steamid=").concat(
            string_of(&decimal_chars(steam_id)).as_str(),
        );
        match &self.api_key {
            Some(key) => base.concat("&key=").concat(key.as_str()),
            None => base,
        }
    }

    /// The address that searches the store for a name; none for a name of
    /// white space only.
    pub fn search_games(&self, query: &str) -> (r: Option<String>)
        ensures
            match r {
                Some(url) => !is_blank(query@) && url@ == search_address(query@),
                None => is_blank(query@),
            },
    {
        let chars = chars_of(query);
        let mut i: usize = 0;
        while i < chars.len()
            invariant
                i <= chars@.len(),
                chars@ == query@,
                forall|j: int| 0 <= j < i ==> whitespace(#[trigger] query@[j]),
            decreases chars@.len() - i,
        {
            if !is_whitespace(chars[i]) {
                return Some(
                    String::from_str("https://store.steampowered.com/api/storesearch/?term=").concat(
                        url_encode(query).as_str(),
                    ).concat("&l=english&cc=US"),
                );
            }
            i = i + 1;
        }
        None
    }
}

/// The id of a player that a text writes.
pub fn parse_steam_id(text: &str) -> (r: Option<u64>)
    ensures
        r == steam_id_of(text@),
{
    let chars = chars_of(text);
    let start: usize = if chars.len() > 0 && chars[0] == '+' {
        1
    } else {
        0
    };
    let digits = slice(&chars, start, chars.len());
    let ghost wanted = without_plus(text@);
    if digits.len() == 0 {
        return None;
    }
    let mut i: usize = 0;
    while i < digits.len()
        invariant
            i <= digits@.len(),
            digits@ == wanted,
            digits@.len() > 0,
            wanted == without_plus(text@),
            forall|j: int| 0 <= j < i ==> is_digit(#[trigger] digits@[j]),
        decreases digits@.len() - i,
    {
        if !('0' <= digits[i] && digits[i] <= '9') {
            return None;
        }
        i = i + 1;
    }
    parse_decimal(&digits, u64::MAX)
}

} // verus!

//! A tree model of JSON documents and the accessors the scanners use.

use crate::error::EngineError;
use vstd::prelude::*;

verus! {

/// The document type of `serde_json`.
#[verifier::external_type_specification]
#[verifier::external_body]
pub struct ExValue(serde_json::Value);

/// The error type of `serde_json`.
#[verifier::external_type_specification]
#[verifier::external_body]
pub struct ExJsonError(serde_json::Error);

/// A JSON document as a mathematical tree.
///
/// A number that fits `i64` is `Integer`; a larger whole number is `Unsigned`;
/// any other number is `Decimal` and carries its decimal text. The members of
/// an object come in the order in which the document tree yields them.
pub enum JsonModel {
    Null,
    Bool(bool),
    Integer(i64),
    Unsigned(u64),
    Decimal(Seq<char>),
    Text(Seq<char>),
    Array(Seq<JsonModel>),
    Object(Seq<(Seq<char>, JsonModel)>),
}

/// A JSON document held in memory.
pub enum JsonValue {
    Null,
    Bool(bool),
    Integer(i64),
    Unsigned(u64),
    Decimal(String),
    Text(String),
    Array(Vec<JsonValue>),
    Object(Vec<(String, JsonValue)>),
}

impl View for JsonValue {
    type V = JsonModel;

    open spec fn view(&self) -> JsonModel {
        tree_view(*self)
    }
}

/// The tree that a value stands for.
pub open spec fn tree_view(v: JsonValue) -> JsonModel
    decreases v, 0nat,
{
    match v {
        JsonValue::Null => JsonModel::Null,
        JsonValue::Bool(b) => JsonModel::Bool(b),
        JsonValue::Integer(i) => JsonModel::Integer(i),
        JsonValue::Unsigned(u) => JsonModel::Unsigned(u),
        JsonValue::Decimal(s) => JsonModel::Decimal(s@),
        JsonValue::Text(s) => JsonModel::Text(s@),
        JsonValue::Array(a) => JsonModel::Array(items_view(a, a@.len())),
        JsonValue::Object(o) => JsonModel::Object(members_view(o, o@.len())),
    }
}

/// The views of the first `n` items of `a`.
pub open spec fn items_view(a: Vec<JsonValue>, n: nat) -> Seq<JsonModel>
    decreases a, n,
{
    if n == 0 || n > a@.len() {
        Seq::empty()
    } else {
        items_view(a, (n - 1) as nat).push(tree_view(a@[n - 1]))
    }
}

/// The views of the first `n` members of `o`.
pub open spec fn members_view(o: Vec<(String, JsonValue)>, n: nat) -> Seq<(Seq<char>, JsonModel)>
    decreases o, n,
{
    if n == 0 || n > o@.len() {
        Seq::empty()
    } else {
        members_view(o, (n - 1) as nat).push((o@[n - 1].0@, tree_view(o@[n - 1].1)))
    }
}

/// `items_view` holds the view of each item at its place.
pub proof fn lemma_items_view(a: Vec<JsonValue>, n: nat)
    requires
        n <= a@.len(),
    ensures
        items_view(a, n).len() == n,
        forall|j: int| 0 <= j < n ==> #[trigger] items_view(a, n)[j] == a@[j]@,
    decreases n,
{
    if n > 0 {
        lemma_items_view(a, (n - 1) as nat);
    }
}

/// `members_view` holds the name and the view of each member at its place.
pub proof fn lemma_members_view(o: Vec<(String, JsonValue)>, n: nat)
    requires
        n <= o@.len(),
    ensures
        members_view(o, n).len() == n,
        forall|j: int|
            0 <= j < n ==> #[trigger] members_view(o, n)[j] == (o@[j].0@, o@[j].1@),
    decreases n,
{
    if n > 0 {
        lemma_members_view(o, (n - 1) as nat);
    }
}

/// The value of the first member named `key` among `members[from..]`.
pub open spec fn member_from(
    members: Seq<(Seq<char>, JsonModel)>,
    key: Seq<char>,
    from: int,
) -> Option<JsonModel>
    decreases members.len() - from,
{
    if from < 0 || from >= members.len() {
        None
    } else if members[from].0 == key {
        Some(members[from].1)
    } else {
        member_from(members, key, from + 1)
    }
}

impl JsonModel {
    /// The member `key` of an object; `None` for a missing member and for
    /// anything that is not an object.
    pub open spec fn member(self, key: Seq<char>) -> Option<JsonModel> {
        match self {
            JsonModel::Object(members) => member_from(members, key, 0),
            _ => None,
        }
    }

    /// The items of an array.
    pub open spec fn items(self) -> Option<Seq<JsonModel>> {
        match self {
            JsonModel::Array(items) => Some(items),
            _ => None,
        }
    }

    /// The members of an object.
    pub open spec fn members(self) -> Option<Seq<(Seq<char>, JsonModel)>> {
        match self {
            JsonModel::Object(members) => Some(members),
            _ => None,
        }
    }

    /// The content of a string.
    pub open spec fn text(self) -> Option<Seq<char>> {
        match self {
            JsonModel::Text(s) => Some(s),
            _ => None,
        }
    }

    /// The value of a boolean.
    pub open spec fn boolean(self) -> Option<bool> {
        match self {
            JsonModel::Bool(b) => Some(b),
            _ => None,
        }
    }

    /// The value of a number that fits `i64`.
    pub open spec fn integer(self) -> Option<i64> {
        match self {
            JsonModel::Integer(i) => Some(i),
            _ => None,
        }
    }

    /// The value of a whole number that is not negative.
    pub open spec fn unsigned(self) -> Option<u64> {
        match self {
            JsonModel::Integer(i) => if i >= 0 {
                Some(i as u64)
            } else {
                None
            },
            JsonModel::Unsigned(u) => Some(u),
            _ => None,
        }
    }
}

/// The view of an optional value.
pub open spec fn view_of(v: Option<&JsonValue>) -> Option<JsonModel> {
    match v {
        Some(v) => Some(v@),
        None => None,
    }
}

impl JsonValue {
    /// Looks up the member `key` of an object.
    pub fn get<'a>(&'a self, key: &str) -> (r: Option<&'a JsonValue>)
        ensures
            view_of(r) == self@.member(key@),
    {
        match self {
            JsonValue::Object(members) => {
                let wanted = key.to_owned();
                proof {
                    lemma_members_view(*members, members@.len());
                }
                let mut i: usize = 0;
                while i < members.len()
                    invariant
                        i <= members@.len(),
                        wanted@ == key@,
                        self@ matches JsonModel::Object(ms) && ms.len() == members@.len() && (forall|
                            j: int,
                        |
                            0 <= j < ms.len() ==> #[trigger] ms[j] == (
                                members@[j].0@,
                                members@[j].1@,
                            )) && member_from(ms, key@, 0) == member_from(ms, key@, i as int),
                    decreases members@.len() - i,
                {
                    if members[i].0 == wanted {
                        return Some(&members[i].1);
                    }
                    i = i + 1;
                }
                None
            },
            _ => None,
        }
    }

    /// The items of an array.
    pub fn as_array<'a>(&'a self) -> (r: Option<&'a Vec<JsonValue>>)
        ensures
            match r {
                Some(items) => self@.items() == Some(Seq::new(items@.len(), |i: int| items@[i]@)),
                None => self@.items() is None,
            },
    {
        match self {
            JsonValue::Array(items) => {
                proof {
                    lemma_items_view(*items, items@.len());
                }
                Some(items)
            },
            _ => None,
        }
    }

    /// The members of an object.
    pub fn as_object<'a>(&'a self) -> (r: Option<&'a Vec<(String, JsonValue)>>)
        ensures
            match r {
                Some(members) => self@.members() == Some(
                    Seq::new(members@.len(), |i: int| (members@[i].0@, members@[i].1@)),
                ),
                None => self@.members() is None,
            },
    {
        match self {
            JsonValue::Object(members) => {
                proof {
                    lemma_members_view(*members, members@.len());
                }
                assert(self@.members().unwrap() =~= Seq::new(
                    members@.len(),
                    |i: int| (members@[i].0@, members@[i].1@),
                ));
                Some(members)
            },
            _ => None,
        }
    }

    /// The content of a string.
    pub fn as_str<'a>(&'a self) -> (r: Option<&'a String>)
        ensures
            match r {
                Some(s) => self@.text() == Some(s@),
                None => self@.text() is None,
            },
    {
        match self {
            JsonValue::Text(s) => Some(s),
            _ => None,
        }
    }

    /// The value of a boolean.
    pub fn as_bool(&self) -> (r: Option<bool>)
        ensures
            r == self@.boolean(),
    {
        match self {
            JsonValue::Bool(b) => Some(*b),
            _ => None,
        }
    }

    /// The value of a number that fits `i64`.
    pub fn as_i64(&self) -> (r: Option<i64>)
        ensures
            r == self@.integer(),
    {
        match self {
            JsonValue::Integer(i) => Some(*i),
            _ => None,
        }
    }

    /// The value of a whole number that is not negative.
    pub fn as_u64(&self) -> (r: Option<u64>)
        ensures
            r == self@.unsigned(),
    {
        match self {
            JsonValue::Integer(i) => if *i >= 0 {
                Some(*i as u64)
            } else {
                None
            },
            JsonValue::Unsigned(u) => Some(*u),
            _ => None,
        }
    }
}

/// The tree that a `serde_json::Value` holds.
pub uninterp spec fn tree_of(v: serde_json::Value) -> JsonModel;

/// The tree that `serde_json::from_str` reads from a text; `None` where it
/// reports an error.
pub uninterp spec fn document_of(text: Seq<char>) -> Option<JsonModel>;

/// Calls `serde_json::from_str` for a `serde_json::Value`. What it returns
/// depends on the text alone: the document's tree, or an error.
#[verifier::external_body]
fn read_document(text: &str) -> (r: Result<serde_json::Value, serde_json::Error>)
    ensures
        match r {
            Ok(v) => document_of(text@) == Some(tree_of(v)),
            Err(_) => document_of(text@) is None,
        },
{
    serde_json::from_str(text)
}

/// Copies a `serde_json::Value` into a `JsonValue`, variant by variant. A
/// number is told apart by `Number::as_i64` and `Number::as_u64`; one that
/// is neither is kept as the text that `Number` prints. Members of an object
/// come in the order in which `Map::iter` yields them.
#[verifier::external_body]
fn copy_tree(v: &serde_json::Value) -> (t: JsonValue)
    ensures
        t@ == tree_of(*v),
{
    match v {
        serde_json::Value::Null => JsonValue::Null,
        serde_json::Value::Bool(b) => JsonValue::Bool(*b),
        serde_json::Value::Number(n) => match (n.as_i64(), n.as_u64()) {
            (Some(i), _) => JsonValue::Integer(i),
            (_, Some(u)) => JsonValue::Unsigned(u),
            _ => JsonValue::Decimal(n.to_string()),
        },
        serde_json::Value::String(s) => JsonValue::Text(s.clone()),
        serde_json::Value::Array(a) => JsonValue::Array(a.iter().map(copy_tree).collect()),
        serde_json::Value::Object(o) => JsonValue::Object(
            o.iter().map(|(k, v)| (k.clone(), copy_tree(v))).collect(),
        ),
    }
}

/// Reads a JSON document. Fails with `Parse` where the text is not one.
pub fn parse(text: &str) -> (r: Result<JsonValue, EngineError>)
    ensures
        match r {
            Ok(t) => document_of(text@) == Some(t@),
            Err(e) => e == EngineError::Parse && document_of(text@) is None,
        },
{
    match read_document(text) {
        Ok(v) => Ok(copy_tree(&v)),
        Err(_) => Err(EngineError::Parse),
    }
}

} // verus!

//! JSON documents as values of the library, read and written by `serde_json`.

use crate::string_map::{first_index, has_name, is_first, lemma_first_index, lemma_first_unique};
use vstd::prelude::*;

verus! {

/// `serde_json::Value`, which the conversions below take and give; nothing
/// is read from it in verified code.
#[verifier::external_type_specification]
#[verifier::external_body]
pub struct ExValue(serde_json::Value);

/// The document that `serde_json::from_str` reads from `text` as a
/// `serde_json::Value`, or `None` where it reports an error.
pub uninterp spec fn parsed_json(text: Seq<char>) -> Option<JsonValue>;

/// The text that `serde_json::to_string` writes for the `serde_json::Value`
/// that is built from `document`: its members inserted in their order into a
/// `serde_json::Map`, and a number whose text `serde_json` does not read
/// taken as `null`.
pub uninterp spec fn json_text(document: JsonValue) -> Seq<char>;

/// A JSON document. A number is kept as the text that stands for it; the
/// members of an object are kept in the order of the document.
#[derive(Debug)]
pub enum Json {
    Null,
    Bool(bool),
    Number(String),
    Str(String),
    Array(Vec<Json>),
    Object(Vec<(String, Json)>),
}

/// The mathematical value of a [`Json`].
pub enum JsonValue {
    Null,
    Bool(bool),
    Number(Seq<char>),
    Str(Seq<char>),
    Array(Seq<JsonValue>),
    Object(Seq<(Seq<char>, JsonValue)>),
}

impl Json {
    /// The value of the document: each string by its characters, each array
    /// and object by the sequence of what it holds.
    pub open spec fn value(self) -> JsonValue
        decreases self,
    {
        match self {
            Json::Null => JsonValue::Null,
            Json::Bool(b) => JsonValue::Bool(b),
            Json::Number(n) => JsonValue::Number(n@),
            Json::Str(s) => JsonValue::Str(s@),
            Json::Array(items) => JsonValue::Array(
                Seq::new(
                    items@.len(),
                    |i: int|
                        if 0 <= i < items@.len() {
                            items@[i].value()
                        } else {
                            JsonValue::Null
                        },
                ),
            ),
            Json::Object(members) => JsonValue::Object(
                Seq::new(
                    members@.len(),
                    |i: int|
                        if 0 <= i < members@.len() {
                            (members@[i].0@, members@[i].1.value())
                        } else {
                            (Seq::empty(), JsonValue::Null)
                        },
                ),
            ),
        }
    }
}

impl View for Json {
    type V = JsonValue;

    open spec fn view(&self) -> JsonValue {
        self.value()
    }
}

/// Moves a `serde_json::Value` into a [`Json`], variant by variant. A number
/// becomes the text that `serde_json::Number` displays; the members of an
/// object come in the order in which `serde_json::Map` hands them out. It
/// converts for [`read_document`], and nothing is stated of it alone.
#[verifier::external_body]
fn json_from_value(value: serde_json::Value) -> Json {
    match value {
        serde_json::Value::Null => Json::Null,
        serde_json::Value::Bool(b) => Json::Bool(b),
        serde_json::Value::Number(n) => Json::Number(n.to_string()),
        serde_json::Value::String(s) => Json::Str(s),
        serde_json::Value::Array(items) => Json::Array(
            items.into_iter().map(json_from_value).collect(),
        ),
        serde_json::Value::Object(members) => Json::Object(
            members.into_iter().map(|(name, member)| (name, json_from_value(member))).collect(),
        ),
    }
}

/// Copies a [`Json`] into a `serde_json::Value`, variant by variant. The text
/// of a number is read by `serde_json::Number`'s `FromStr`, and where that
/// fails the number becomes `null`; the members of an object are collected
/// into a `serde_json::Map` in their order. It converts for
/// [`write_document`], and nothing is stated of it alone.
#[verifier::external_body]
fn value_from_json(document: &Json) -> serde_json::Value {
    match document {
        Json::Null => serde_json::Value::Null,
        Json::Bool(b) => serde_json::Value::Bool(*b),
        Json::Number(n) => match n.parse::<serde_json::Number>() {
            Ok(number) => serde_json::Value::Number(number),
            Err(_) => serde_json::Value::Null,
        },
        Json::Str(s) => serde_json::Value::String(s.clone()),
        Json::Array(items) => serde_json::Value::Array(items.iter().map(value_from_json).collect()),
        Json::Object(members) => serde_json::Value::Object(
            members.iter().map(|(name, member)| (name.clone(), value_from_json(member))).collect(),
        ),
    }
}

/// Calls `serde_json::from_str` for a `serde_json::Value`. The contract gives
/// the outcome its name, [`parsed_json`]: `None` stands for every error that
/// `serde_json` reports, and nothing is claimed about which texts it accepts.
#[verifier::external_body]
fn read_document(text: &str) -> (r: Option<Json>)
    ensures
        match r {
            Some(document) => parsed_json(text@) == Some(document@),
            None => parsed_json(text@) is None,
        },
{
    match serde_json::from_str::<serde_json::Value>(text) {
        Ok(value) => Some(json_from_value(value)),
        Err(_) => None,
    }
}

/// Calls `serde_json::to_string` on the `serde_json::Value` that holds
/// `document`. The contract gives the text its name, [`json_text`]; writing
/// a `Value` does not fail.
#[verifier::external_body]
fn write_document(document: &Json) -> (text: String)
    ensures
        text@ == json_text(document@),
{
    serde_json::to_string(&value_from_json(document)).unwrap_or_default()
}

impl Json {
    /// Reads a document from its text; `None` where the text is no JSON
    /// document.
    pub fn parse(text: &str) -> (r: Option<Json>)
        ensures
            match r {
                Some(document) => parsed_json(text@) == Some(document@),
                None => parsed_json(text@) is None,
            },
    {
        read_document(text)
    }

    /// Writes the document as text.
    pub fn to_text(&self) -> (text: String)
        ensures
            text@ == json_text(self@),
    {
        write_document(self)
    }
}

/// Whether `serde_json` reads back, from the text that it writes for
/// `document`, that same document.
pub open spec fn reads_back(document: JsonValue) -> bool {
    parsed_json(json_text(document)) == Some(document)
}

/// The member of an object that is called `name`: the first, where several
/// are.
pub open spec fn member_of(members: Seq<(Seq<char>, JsonValue)>, name: Seq<char>) -> Option<
    JsonValue,
> {
    if has_name(members, name) {
        Some(members[first_index(members, name)].1)
    } else {
        None
    }
}

/// The members of an object as the view sees them.
pub open spec fn members_view(members: Seq<(String, Json)>) -> Seq<(Seq<char>, JsonValue)> {
    Seq::new(members.len(), |i: int| (members[i].0@, members[i].1@))
}

/// The items of an array as the view sees them.
pub open spec fn items_view(items: Seq<Json>) -> Seq<JsonValue> {
    Seq::new(items.len(), |i: int| items[i]@)
}

/// Unfolds the view of an object.
pub proof fn lemma_object_view(members: Vec<(String, Json)>)
    ensures
        Json::Object(members)@ == JsonValue::Object(members_view(members@)),
{
    let a = Json::Object(members)@;
    assert(a->Object_0 =~= members_view(members@));
}

/// Unfolds the view of an array.
pub proof fn lemma_array_view(items: Vec<Json>)
    ensures
        Json::Array(items)@ == JsonValue::Array(items_view(items@)),
{
    let a = Json::Array(items)@;
    assert(a->Array_0 =~= items_view(items@));
}

/// Looks a member of an object up by its name.
pub fn member<'a>(members: &'a Vec<(String, Json)>, name: &str) -> (r: Option<&'a Json>)
    ensures
        match r {
            Some(value) => member_of(members_view(members@), name@) == Some(value@),
            None => member_of(members_view(members@), name@) is None,
        },
{
    let owned: String = name.to_owned();
    let ghost view = members_view(members@);
    let mut i: usize = 0;
    while i < members.len()
        invariant
            i <= members.len(),
            owned@ == name@,
            view == members_view(members@),
            forall|j: int| 0 <= j < i ==> #[trigger] view[j].0 != name@,
        decreases members.len() - i,
    {
        if members[i].0 == owned {
            proof {
                assert(view[i as int].0 == name@);
                assert(is_first(view, name@, i as int));
                lemma_first_index(view, name@);
                lemma_first_unique(view, name@, i as int, first_index(view, name@));
            }
            return Some(&members[i].1);
        }
        i += 1;
    }
    None
}

} // verus!

//! JSON objects whose fields are plain values.

use crate::tables::optional_view;
use vstd::prelude::*;

verus! {

/// The value of a field.
#[derive(Clone, Debug, PartialEq, Eq)]
pub enum JsonValue {
    Null,
    Flag(bool),
    Number(u64),
    Text(String),
}

/// A field with its name.
#[derive(Clone, Debug, PartialEq, Eq)]
pub struct JsonField {
    pub name: String,
    pub value: JsonValue,
}

/// What the value of a field holds.
pub ghost enum Json {
    Null,
    Flag(bool),
    Number(u64),
    Text(Seq<char>),
}

impl View for JsonValue {
    type V = Json;

    open spec fn view(&self) -> Json {
        match *self {
            JsonValue::Null => Json::Null,
            JsonValue::Flag(flag) => Json::Flag(flag),
            JsonValue::Number(number) => Json::Number(number),
            JsonValue::Text(text) => Json::Text(text@),
        }
    }
}

/// The names and values of the fields.
pub open spec fn field_views(fields: Seq<JsonField>) -> Seq<(Seq<char>, Json)> {
    fields.map_values(|field: JsonField| (field.name@, field.value@))
}

/// The compact notation of an object with the given fields.
pub uninterp spec fn object_json(fields: Seq<(Seq<char>, Json)>) -> Seq<char>;

/// `serde_json::Value::to_string` on an object collected from the fields: its compact notation.
#[verifier::external_body]
pub(crate) fn write_object(fields: Vec<JsonField>) -> (text: String)
    ensures
        text@ == object_json(field_views(fields@)),
{
    let fields = fields.into_iter().map(|field| (field.name, match field.value {
        JsonValue::Null => serde_json::Value::Null,
        JsonValue::Flag(flag) => serde_json::Value::from(flag),
        JsonValue::Number(number) => serde_json::Value::from(number),
        JsonValue::Text(text) => serde_json::Value::from(text),
    }));
    serde_json::Value::Object(fields.collect()).to_string()
}

/// The text in a field of the object that a document holds: none where the document is not JSON,
/// and no text where there is no such field or it holds something else.
pub uninterp spec fn json_text_at(document: Seq<char>, name: Seq<char>) -> Option<
    Option<Seq<char>>,
>;

/// The items of the list in a field of the object that a document holds, each with its text if it
/// is one: none where the document is not JSON, and no list where there is no such field or it
/// holds something else.
pub uninterp spec fn json_texts_at(document: Seq<char>, name: Seq<char>) -> Option<
    Option<Seq<Option<Seq<char>>>>,
>;

/// The characters of optional texts.
pub open spec fn optional_views(texts: Seq<Option<String>>) -> Seq<Option<Seq<char>>> {
    texts.map_values(|text: Option<String>| optional_view(text))
}

/// `serde_json::from_str` into a `serde_json::Value`, then `Value::get` and `Value::as_str`.
#[verifier::external_body]
pub(crate) fn read_text_at(document: &str, name: &str) -> (text: Option<Option<String>>)
    ensures
        text is Some == json_text_at(document@, name@) is Some,
        text is Some ==> optional_view(text->0) == json_text_at(document@, name@)->0,
{
    match serde_json::from_str::<serde_json::Value>(document) {
        Ok(value) => Some(
            value.get(name).and_then(serde_json::Value::as_str).map(str::to_string),
        ),
        Err(_) => None,
    }
}

/// `serde_json::from_str` into a `serde_json::Value`, then `Value::get`, `Value::as_array`, and
/// `Value::as_str` on each item.
#[verifier::external_body]
pub(crate) fn read_texts_at(document: &str, name: &str) -> (texts: Option<
    Option<Vec<Option<String>>>,
>)
    ensures
        match json_texts_at(document@, name@) {
            None => texts is None,
            Some(None) => texts is Some && texts->0 is None,
            Some(Some(items)) => texts is Some && texts->0 is Some && optional_views(
                (texts->0->0)@,
            ) == items,
        },
{
    match serde_json::from_str::<serde_json::Value>(document) {
        Ok(value) => Some(value.get(name).and_then(serde_json::Value::as_array).map(
            |items| items.iter().map(|item| item.as_str().map(str::to_string)).collect(),
        )),
        Err(_) => None,
    }
}

/// A field that holds a text.
pub fn text_field(name: &str, text: &str) -> (field: JsonField)
    ensures
        (field.name@, field.value@) == (name@, Json::Text(text@)),
{
    JsonField { name: name.to_owned(), value: JsonValue::Text(text.to_owned()) }
}

/// A field that holds a number.
pub fn number_field(name: &str, number: u64) -> (field: JsonField)
    ensures
        (field.name@, field.value@) == (name@, Json::Number(number)),
{
    JsonField { name: name.to_owned(), value: JsonValue::Number(number) }
}

/// A field that holds a number, or nothing.
pub fn optional_number_field(name: &str, number: Option<u64>) -> (field: JsonField)
    ensures
        (field.name@, field.value@) == (
            name@,
            match number {
                Some(number) => Json::Number(number),
                None => Json::Null,
            },
        ),
{
    let value = match number {
        Some(number) => JsonValue::Number(number),
        None => JsonValue::Null,
    };
    JsonField { name: name.to_owned(), value }
}

} // verus!

//! Reading JSON documents through `serde_json`.
use serde_json::Value;
use vstd::prelude::*;

verus! {

/// A JSON value, as far as this library tells values apart: text, an object,
/// or anything else.
pub enum JsonModel {
    Text(Seq<char>),
    Object(Map<Seq<char>, JsonModel>),
    Other,
}

/// `serde_json::Value`, a parsed JSON value.
#[verifier::external_type_specification]
#[verifier::external_body]
pub struct ExValue(Value);

/// `serde_json::Error`, the reason why a text was not parsed.
#[verifier::external_type_specification]
#[verifier::external_body]
pub struct ExError(serde_json::Error);

/// `serde_json::Map`, the members of a JSON object.
#[verifier::external_type_specification]
#[verifier::external_body]
#[verifier::reject_recursive_types(K)]
#[verifier::reject_recursive_types(V)]
pub struct ExMap<K, V>(serde_json::Map<K, V>);

/// What a `serde_json::Value` holds.
pub uninterp spec fn json_contents(value: Value) -> JsonModel;

/// What a `serde_json::Map` holds: the value of each member by its name.
pub uninterp spec fn json_members(members: serde_json::Map<String, Value>) -> Map<
    Seq<char>,
    JsonModel,
>;

/// The value that `serde_json::from_slice` finds in a text, or `None` when it
/// reports an error: the text is not JSON, or is nested deeper than the parser
/// goes.
pub uninterp spec fn parsed_json(text: Seq<u8>) -> Option<JsonModel>;

/// The member of an object by name. Where there is none, it is something that
/// is neither text nor an object.
pub open spec fn member(value: JsonModel, name: Seq<char>) -> JsonModel {
    match value {
        JsonModel::Object(members) => if members.dom().contains(name) {
            members[name]
        } else {
            JsonModel::Other
        },
        _ => JsonModel::Other,
    }
}

/// The text that a value is, if it is text.
pub open spec fn text_in(value: JsonModel) -> Option<Seq<char>> {
    match value {
        JsonModel::Text(text) => Some(text),
        _ => None,
    }
}

/// `serde_json::from_slice`, into a `serde_json::Value`.
///
/// Claims that whether it succeeds, and what the value holds, depends on the
/// bytes alone.
#[verifier::external_body]
pub(crate) fn parse(text: &[u8]) -> (parsed: Result<Value, serde_json::Error>)
    ensures
        match parsed {
            Ok(value) => parsed_json(text@) == Some(json_contents(value)),
            Err(_) => parsed_json(text@) is None,
        },
{
    serde_json::from_slice(text)
}

/// Indexing a `serde_json::Value` by a string: `serde_json`'s `Index` for
/// `Value`.
///
/// Claims that it gives the member of that name when the value is an object
/// that has one, and otherwise `null`, which is neither text nor an object.
#[verifier::external_body]
pub(crate) fn index<'a>(value: &'a Value, name: &str) -> (found: &'a Value)
    ensures
        json_contents(*found) == member(json_contents(*value), name@),
{
    &value[name]
}

/// `serde_json::Value::as_str`: the text of a string value, `None` for any
/// other value.
pub assume_specification[ Value::as_str ](value: &Value) -> (text: Option<&str>)
    ensures
        match text {
            Some(text) => json_contents(*value) == JsonModel::Text(text@),
            None => text_in(json_contents(*value)) is None,
        },
;

/// `serde_json::Value::as_object`: the members of an object value, `None` for
/// any other value.
pub assume_specification[ Value::as_object ](value: &Value) -> (object: Option<
    &serde_json::Map<String, Value>,
>)
    ensures
        match object {
            Some(object) => json_contents(*value) == JsonModel::Object(json_members(*object)),
            None => !(json_contents(*value) is Object),
        },
;

/// `serde_json::Map::iter`, collected.
///
/// Claims that it goes through every member once. The order of the members is
/// left open.
#[verifier::external_body]
pub(crate) fn members<'a>(object: &'a serde_json::Map<String, Value>) -> (list: Vec<
    (&'a String, &'a Value),
>)
    ensures
        forall|i: int, j: int|
            0 <= i < j < list@.len() ==> (#[trigger] list@[i]).0@ != (#[trigger] list@[j]).0@,
        forall|i: int|
            0 <= i < list@.len() ==> json_members(*object).dom().contains(
                (#[trigger] list@[i]).0@,
            ) && json_members(*object)[list@[i].0@] == json_contents(*list@[i].1),
        forall|name: Seq<char>|
            json_members(*object).dom().contains(name) ==> exists|i: int|
                0 <= i < list@.len() && (#[trigger] list@[i]).0@ == name,
{
    object.iter().collect()
}

/// The member of an object that has one of that name is that one. What has
/// none, and what is no object, gives something that is neither text nor an
/// object. Only text has text.
pub proof fn law_members_by_name(
    members: Map<Seq<char>, JsonModel>,
    name: Seq<char>,
    text: Seq<char>,
)
    ensures
        members.dom().contains(name) ==> member(JsonModel::Object(members), name) == members[name],
        !members.dom().contains(name) ==> member(JsonModel::Object(members), name)
            == JsonModel::Other,
        member(JsonModel::Text(text), name) == JsonModel::Other,
        member(JsonModel::Other, name) == JsonModel::Other,
        text_in(JsonModel::Text(text)) == Some(text),
        text_in(JsonModel::Object(members)) is None,
        text_in(JsonModel::Other) is None,
{
}

} // verus!

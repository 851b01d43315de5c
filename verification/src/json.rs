//! The boundary to `serde_json`: what a JSON value holds, and the calls that read and build one.
use vstd::prelude::*;

verus! {

/// What a JSON number holds: an integer keeps its value, any other number the bit pattern of its
/// double.
pub enum JsonNumber {
    Unsigned(u64),
    Negative(i64),
    Float(u64),
}

/// What a JSON value holds.
pub enum Json {
    Null,
    Bool(bool),
    Number(JsonNumber),
    Text(Seq<char>),
    List(Seq<Json>),
    Object(Map<Seq<char>, Json>),
}

/// `serde_json::Value`, a JSON value of any shape. What it holds is named by [`json_of`].
#[verifier::external_type_specification]
#[verifier::external_body]
pub struct ExValue(serde_json::Value);

/// `serde_json::Error`, the reason why a text is not JSON.
#[verifier::external_type_specification]
#[verifier::external_body]
pub struct ExJsonError(serde_json::Error);

/// What a `serde_json::Value` holds, variant by variant.
pub uninterp spec fn json_of(value: serde_json::Value) -> Json;

/// What `serde_json::from_str` makes of a text; nothing where it refuses the text.
pub uninterp spec fn json_of_text(text: Seq<char>) -> Option<Json>;

/// What an optional value holds.
pub open spec fn json_of_option(value: Option<&serde_json::Value>) -> Option<Json> {
    match value {
        Some(v) => Some(json_of(*v)),
        None => None,
    }
}

/// What each value of a sequence holds.
pub open spec fn json_of_each(values: Seq<serde_json::Value>) -> Seq<Json> {
    Seq::new(values.len(), |i: int| json_of(values[i]))
}

/// The member of that name; only objects have members.
pub open spec fn json_member(json: Json, key: Seq<char>) -> Option<Json> {
    match json {
        Json::Object(members) => if members.contains_key(key) {
            Some(members[key])
        } else {
            None
        },
        _ => None,
    }
}

/// The elements of a list.
pub open spec fn json_elements(json: Json) -> Option<Seq<Json>> {
    match json {
        Json::List(elements) => Some(elements),
        _ => None,
    }
}

/// The value of a number that is an integer and not negative.
pub open spec fn json_unsigned(json: Json) -> Option<u64> {
    match json {
        Json::Number(JsonNumber::Unsigned(n)) => Some(n),
        _ => None,
    }
}

/// The characters of a string.
pub open spec fn json_text(json: Json) -> Option<Seq<char>> {
    match json {
        Json::Text(text) => Some(text),
        _ => None,
    }
}

/// The list of these strings.
pub open spec fn json_strings(texts: Seq<Seq<char>>) -> Json {
    Json::List(Seq::new(texts.len(), |i: int| Json::Text(texts[i])))
}

/// The members that a sequence of named values makes up.
pub open spec fn named_members(named: Seq<(String, serde_json::Value)>) -> Map<Seq<char>, Json>
    decreases named.len(),
{
    if named.len() == 0 {
        Map::empty()
    } else {
        named_members(named.drop_last()).insert(named.last().0@, json_of(named.last().1))
    }
}

/// Calls `serde_json::from_str`: the value that the text denotes, or an error where the text is
/// not JSON. Which texts are JSON, and what each denotes, is left to the name.
#[verifier::external_body]
pub(crate) fn parse_text(text: &str) -> (r: Result<serde_json::Value, serde_json::Error>)
    ensures
        match r {
            Ok(value) => json_of_text(text@) == Some(json_of(value)),
            Err(_) => json_of_text(text@) is None,
        },
{
    serde_json::from_str::<serde_json::Value>(text)
}

/// Calls `serde_json::Value::get` with a string: the member of that name where the value is an
/// object that has one, nothing otherwise.
#[verifier::external_body]
pub(crate) fn member<'a>(value: &'a serde_json::Value, key: &str) -> (r: Option<
    &'a serde_json::Value,
>)
    ensures
        json_of_option(r) == json_member(json_of(*value), key@),
{
    value.get(key)
}

/// Calls `serde_json::Value::as_array`: the elements where the value is a list, nothing
/// otherwise.
#[verifier::external_body]
pub(crate) fn elements(value: &serde_json::Value) -> (r: Option<&Vec<serde_json::Value>>)
    ensures
        match r {
            Some(found) => json_elements(json_of(*value)) == Some(json_of_each(found@)),
            None => json_elements(json_of(*value)) is None,
        },
{
    value.as_array()
}

/// Calls `serde_json::Value::as_u64`: the number where the value is an integer that is not
/// negative, nothing otherwise.
#[verifier::external_body]
pub(crate) fn unsigned(value: &serde_json::Value) -> (r: Option<u64>)
    ensures
        r == json_unsigned(json_of(*value)),
{
    value.as_u64()
}

/// Calls `serde_json::Value::as_str`: the characters where the value is a string, nothing
/// otherwise.
#[verifier::external_body]
pub(crate) fn text_of(value: &serde_json::Value) -> (r: Option<&str>)
    ensures
        match r {
            Some(found) => json_text(json_of(*value)) == Some(found@),
            None => json_text(json_of(*value)) is None,
        },
{
    value.as_str()
}

/// Calls `serde_json::Value::default`: the null value.
#[verifier::external_body]
pub(crate) fn null_value() -> (r: serde_json::Value)
    ensures
        json_of(r) == Json::Null,
{
    serde_json::Value::default()
}

/// Calls `serde_json::Value::from` on a string slice: the string value with these characters.
#[verifier::external_body]
pub(crate) fn text_value(text: &str) -> (r: serde_json::Value)
    ensures
        json_of(r) == Json::Text(text@),
{
    serde_json::Value::from(text)
}

/// Calls `serde_json::Value::from` on a slice of strings: the list of these strings, in order.
#[verifier::external_body]
pub(crate) fn texts_value(texts: &[String]) -> (r: serde_json::Value)
    ensures
        json_of(r) == json_strings(crate::text::views(texts@)),
{
    serde_json::Value::from(texts)
}

/// Calls `serde_json::Value::from_iter` on named values: the object with these members. The names
/// must differ.
#[verifier::external_body]
pub(crate) fn object_value(named: Vec<(String, serde_json::Value)>) -> (r: serde_json::Value)
    requires
        forall|i: int, j: int|
            0 <= i < j < named@.len() ==> #[trigger] named@[i].0@ != #[trigger] named@[j].0@,
    ensures
        json_of(r) == Json::Object(named_members(named@)),
{
    serde_json::Value::from_iter(named)
}

} // verus!

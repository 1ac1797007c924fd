//! JSON values as `serde_json` holds them, and what this library builds
//! and reads of them.
use vstd::prelude::*;

verus! {

#[verifier::external_type_specification]
#[verifier::external_body]
pub struct ExValue(serde_json::Value);

/// What a JSON value holds.
pub enum JsonView {
    Null,
    Bool(bool),
    /// A number, by its numeral.
    Number(Seq<char>),
    Text(Seq<char>),
    Array(Seq<JsonView>),
    /// An object, by the values under its names.
    Object(Map<Seq<char>, JsonView>),
}

/// What the JSON value `v` holds.
pub uninterp spec fn json_of(v: serde_json::Value) -> JsonView;

/// What a list of JSON values holds.
pub open spec fn jsons_of(items: Seq<serde_json::Value>) -> Seq<JsonView> {
    items.map_values(|v: serde_json::Value| json_of(v))
}

/// The value under `name` in an object; none in an object without that
/// name and in a value that is no object.
pub open spec fn member(j: JsonView, name: Seq<char>) -> Option<JsonView> {
    match j {
        JsonView::Object(m) => if m.contains_key(name) {
            Some(m[name])
        } else {
            None
        },
        _ => None,
    }
}

/// The text of a JSON string; none of any other value.
pub open spec fn text_of(j: JsonView) -> Option<Seq<char>> {
    match j {
        JsonView::Text(s) => Some(s),
        _ => None,
    }
}

/// The elements of a JSON array; none of any other value.
pub open spec fn items_of(j: JsonView) -> Option<Seq<JsonView>> {
    match j {
        JsonView::Array(items) => Some(items),
        _ => None,
    }
}

/// `j` with `value` under `name`, where `j` is an object; `j` itself
/// otherwise.
pub open spec fn with_member(j: JsonView, name: Seq<char>, value: JsonView) -> JsonView {
    match j {
        JsonView::Object(m) => JsonView::Object(m.insert(name, value)),
        _ => j,
    }
}

/// The JSON string `s`.
///
/// Trusted: `serde_json::Value::from` for a string slice, which gives the
/// string value of that text.
#[verifier::external_body]
pub(crate) fn json_text(s: &str) -> (r: serde_json::Value)
    ensures
        json_of(r) == JsonView::Text(s@),
{
    serde_json::Value::from(s)
}

/// The JSON boolean `b`.
///
/// Trusted: `serde_json::Value::from` for a `bool`, which gives the
/// boolean value.
#[verifier::external_body]
pub(crate) fn json_bool(b: bool) -> (r: serde_json::Value)
    ensures
        json_of(r) == JsonView::Bool(b),
{
    serde_json::Value::from(b)
}

/// The JSON array of `items`.
///
/// Trusted: `serde_json::Value::from` for a vector of values, which gives
/// the array of those values in their order.
#[verifier::external_body]
pub(crate) fn json_array(items: Vec<serde_json::Value>) -> (r: serde_json::Value)
    ensures
        json_of(r) == JsonView::Array(jsons_of(items@)),
{
    serde_json::Value::from(items)
}

/// The JSON object without members.
///
/// Trusted: `serde_json::Map::new`, which gives an empty map, made into a
/// value by `serde_json::Value::from`.
#[verifier::external_body]
pub(crate) fn json_object() -> (r: serde_json::Value)
    ensures
        json_of(r) == JsonView::Object(Map::empty()),
{
    serde_json::Value::from(serde_json::Map::new())
}

/// Puts `value` under `name` into the object `object`; a value that is no
/// object is left as it is.
///
/// Trusted: `serde_json::Map::insert` on the map that
/// `serde_json::Value::as_object_mut` gives. The insertion adds the pair,
/// and writes over the value where the name is present.
#[verifier::external_body]
pub(crate) fn json_insert(object: &mut serde_json::Value, name: &str, value: serde_json::Value)
    ensures
        json_of(*final(object)) == with_member(json_of(*old(object)), name@, json_of(value)),
{
    if let Some(members) = object.as_object_mut() {
        members.insert(name.to_owned(), value);
    }
}

/// The value under `name` in the object `v`.
///
/// Trusted: `serde_json::Value::get` with a string index, which gives the
/// value under that name in an object, and nothing where the name is
/// absent or the value is no object.
#[verifier::external_body]
pub(crate) fn json_get<'a>(v: &'a serde_json::Value, name: &str) -> (r: Option<&'a serde_json::Value>)
    ensures
        r is Some <==> member(json_of(*v), name@) is Some,
        r matches Some(found) ==> member(json_of(*v), name@) == Some(json_of(*found)),
{
    v.get(name)
}

/// The text of the JSON string `v`.
///
/// Trusted: `serde_json::Value::as_str`, which gives the text of a string
/// and nothing of any other value.
#[verifier::external_body]
pub(crate) fn json_as_str<'a>(v: &'a serde_json::Value) -> (r: Option<&'a str>)
    ensures
        r is Some <==> text_of(json_of(*v)) is Some,
        r matches Some(s) ==> text_of(json_of(*v)) == Some(s@),
{
    v.as_str()
}

/// The elements of the JSON array `v`.
///
/// Trusted: `serde_json::Value::as_array`, which gives the vector of an
/// array and nothing of any other value.
#[verifier::external_body]
pub(crate) fn json_as_array<'a>(v: &'a serde_json::Value) -> (r: Option<&'a Vec<serde_json::Value>>)
    ensures
        r is Some <==> items_of(json_of(*v)) is Some,
        r matches Some(items) ==> items_of(json_of(*v)) == Some(jsons_of(items@)),
{
    v.as_array()
}

/// Trusted: `Clone` for `serde_json::Value`, which copies the value with
/// all that it holds.
pub assume_specification[ <serde_json::Value as Clone>::clone ](v: &serde_json::Value) -> (r:
    serde_json::Value)
    ensures
        json_of(r) == json_of(*v),
;

/// Whether `entries` are the members of the object that holds `members`:
/// each member once, under its name.
pub open spec fn holds_members(
    entries: Seq<(String, serde_json::Value)>,
    members: Map<Seq<char>, JsonView>,
) -> bool {
    &&& forall|i: int|
        0 <= i < entries.len() ==> members.contains_key((#[trigger] entries[i]).0@)
            && members[entries[i].0@] == json_of(entries[i].1)
    &&& forall|i: int, j: int|
        0 <= i < j < entries.len() ==> (#[trigger] entries[i]).0@ != (#[trigger] entries[j]).0@
    &&& forall|name: Seq<char>| #[trigger]
        members.contains_key(name) ==> exists|i: int|
            0 <= i < entries.len() && (#[trigger] entries[i]).0@ == name
}

/// The members of the object `v`, each with its name.
///
/// Trusted: `serde_json::Value::as_object`, which gives the map of an
/// object and nothing of any other value, and `serde_json::Map::iter`,
/// which goes through the entries of the map. A map holds each name once.
/// Nothing is said of the order.
#[verifier::external_body]
pub(crate) fn json_entries(v: &serde_json::Value) -> (r: Option<Vec<(String, serde_json::Value)>>)
    ensures
        r is Some <==> json_of(*v) is Object,
        r matches Some(entries) ==> json_of(*v) matches JsonView::Object(members) && holds_members(
            entries@,
            members,
        ),
{
    let members = v.as_object()?;
    Some(members.iter().map(|(name, value)| (name.clone(), value.clone())).collect())
}

/// What `text` holds when it is read as JSON; none where it is no JSON.
pub uninterp spec fn parsed_json(text: Seq<char>) -> Option<JsonView>;

/// The number that a JSON value holds, where it is an integer that is not
/// negative and fits 64 bits.
pub uninterp spec fn unsigned_of(j: JsonView) -> Option<int>;

/// The number that a JSON value holds, where it is an integer that fits 64
/// bits with a sign.
pub uninterp spec fn signed_of(j: JsonView) -> Option<int>;

/// Reads `text` as JSON.
///
/// Trusted: `serde_json::from_str` for a value. What is read depends on
/// the text alone, which the contract names.
#[verifier::external_body]
pub(crate) fn json_parse(text: &str) -> (r: Option<serde_json::Value>)
    ensures
        r is Some <==> parsed_json(text@) is Some,
        r matches Some(v) ==> parsed_json(text@) == Some(json_of(v)),
{
    serde_json::from_str(text).ok()
}

/// The JSON number `v` as an unsigned integer.
///
/// Trusted: `serde_json::Value::as_u64`, which gives the number where the
/// value is an integer that can be held so, and nothing otherwise. The
/// contract names what it gives.
#[verifier::external_body]
pub(crate) fn json_as_u64(v: &serde_json::Value) -> (r: Option<u64>)
    ensures
        r is Some <==> unsigned_of(json_of(*v)) is Some,
        r matches Some(n) ==> unsigned_of(json_of(*v)) == Some(n as int),
{
    v.as_u64()
}

/// The JSON number `v` as a signed integer.
///
/// Trusted: `serde_json::Value::as_i64`, which gives the number where the
/// value is an integer that can be held so, and nothing otherwise. The
/// contract names what it gives.
#[verifier::external_body]
pub(crate) fn json_as_i64(v: &serde_json::Value) -> (r: Option<i64>)
    ensures
        r is Some <==> signed_of(json_of(*v)) is Some,
        r matches Some(n) ==> signed_of(json_of(*v)) == Some(n as int),
{
    v.as_i64()
}

/// The text that a JSON value is written as; none where the value cannot
/// be written.
pub uninterp spec fn printed_json(j: JsonView) -> Option<Seq<char>>;

/// Writes the JSON value `v` as text.
///
/// Trusted: `serde_json::to_string` for a value. The members of an object
/// are written in the order of their names, so that the outcome, a text or
/// a failure, depends on what the value holds alone. The contract names
/// that outcome; it does not say that the value can be written.
#[verifier::external_body]
pub(crate) fn json_print(v: &serde_json::Value) -> (r: Option<String>)
    ensures
        r is Some <==> printed_json(json_of(*v)) is Some,
        r matches Some(text) ==> printed_json(json_of(*v)) == Some(text@),
{
    serde_json::to_string(v).ok()
}

} // verus!

//! A mathematical picture of JSON values, and the serde_json calls the
//! library makes, with what they return stated over that picture.
use vstd::prelude::*;

verus! {

/// What a JSON value holds. Numbers are kept abstract: nothing here reads them.
pub enum JsonView {
    Null,
    Bool(bool),
    Number,
    Str(Seq<char>),
    Array(Seq<JsonView>),
    Object(Map<Seq<char>, JsonView>),
}

#[verifier::external_type_specification]
#[verifier::external_body]
pub struct ExValue(serde_json::Value);

/// What a `serde_json::Value` holds: its variant and, for strings, arrays and
/// objects, their contents.
pub uninterp spec fn json_view(v: serde_json::Value) -> JsonView;

/// What `serde_json::from_str` makes of a text: `None` when it is not one JSON value.
pub uninterp spec fn json_parse(s: Seq<char>) -> Option<JsonView>;

/// The member `k` of `v`, when `v` is an object that has one.
pub open spec fn member(v: JsonView, k: Seq<char>) -> Option<JsonView> {
    match v {
        JsonView::Object(m) => if m.contains_key(k) {
            Some(m[k])
        } else {
            None
        },
        _ => None,
    }
}

/// Relies on `serde_json::from_str::<Value>`: parses one JSON text, or fails.
#[verifier::external_body]
pub(crate) fn parse_json(s: &str) -> (r: Option<serde_json::Value>)
    ensures
        r is None <==> json_parse(s@) is None,
        r matches Some(v) ==> json_parse(s@) == Some(json_view(v)),
{
    serde_json::from_str::<serde_json::Value>(s).ok()
}

/// Relies on `serde_json::Value::get` with a `&str` key: the member of an
/// object, `None` for a missing key or a value of another kind.
#[verifier::external_body]
pub(crate) fn json_get<'a>(v: &'a serde_json::Value, key: &str) -> (r: Option<&'a serde_json::Value>)
    ensures
        r is None <==> member(json_view(*v), key@) is None,
        r matches Some(x) ==> member(json_view(*v), key@) == Some(json_view(*x)),
{
    v.get(key)
}

/// Relies on `serde_json::Value::as_str`: the text of a string value.
#[verifier::external_body]
pub(crate) fn json_as_str<'a>(v: &'a serde_json::Value) -> (r: Option<&'a str>)
    ensures
        match json_view(*v) {
            JsonView::Str(s) => r matches Some(t) && t@ == s,
            _ => r is None,
        },
{
    v.as_str()
}

/// Relies on `serde_json::Value::as_array`: the elements of an array value.
#[verifier::external_body]
pub(crate) fn json_as_array<'a>(v: &'a serde_json::Value) -> (r: Option<&'a Vec<serde_json::Value>>)
    ensures
        match json_view(*v) {
            JsonView::Array(a) => r matches Some(items) && items@.len() == a.len() && (forall|
                i: int,
            | 0 <= i < a.len() ==> json_view(#[trigger] items@[i]) == a[i]),
            _ => r is None,
        },
{
    v.as_array()
}

} // verus!

//! The JSON documents that messages carry. Parsing and rendering are
//! serde_json's; this module states what the classifier relies on and gives
//! the results names that contracts can speak of.

use vstd::prelude::*;

verus! {

#[verifier::external_type_specification]
#[verifier::external_body]
pub struct ExValue(serde_json::Value);

#[verifier::external_type_specification]
#[verifier::external_body]
pub struct ExError(serde_json::Error);

/// The document that `serde_json::from_str` reads from `text`, or `None`
/// where it rejects the text.
pub uninterp spec fn json_parse(text: Seq<char>) -> Option<serde_json::Value>;

/// What indexing `document` by `name` refers to: the member of that name
/// where `document` is an object that has one, the null value otherwise.
pub uninterp spec fn json_member(document: serde_json::Value, name: Seq<char>) -> serde_json::Value;

/// Whether `value` is the JSON null.
pub uninterp spec fn json_is_null(value: serde_json::Value) -> bool;

/// The compact text that serde_json writes for `value`.
pub uninterp spec fn json_text(value: serde_json::Value) -> Seq<char>;

/// Parses a JSON document.
///
/// Calls `serde_json::from_str::<serde_json::Value>`. Trusted: the outcome is
/// a function of the text alone, named `json_parse`; an error stands for
/// `None`.
#[verifier::external_body]
pub(crate) fn parse_value(text: &str) -> (r: Result<serde_json::Value, serde_json::Error>)
    ensures
        match r {
            Ok(document) => json_parse(text@) == Some(document),
            Err(_) => json_parse(text@) is None,
        },
{
    serde_json::from_str::<serde_json::Value>(text)
}

/// The member `name` of a document.
///
/// Calls `Index<&str>` of `serde_json::Value`, which never panics on a shared
/// reference: a missing member, or a document that is no object, gives the
/// null value. Trusted: the result is the value named `json_member`.
#[verifier::external_body]
pub(crate) fn member<'a>(document: &'a serde_json::Value, name: &str) -> (r: &'a serde_json::Value)
    ensures
        *r == json_member(*document, name@),
{
    &document[name]
}

/// Whether a value is the JSON null.
///
/// Calls `serde_json::Value::is_null`. Trusted: the result is `json_is_null`.
#[verifier::external_body]
pub(crate) fn is_null(value: &serde_json::Value) -> (r: bool)
    ensures
        r == json_is_null(*value),
{
    value.is_null()
}

/// The compact JSON text of a value.
///
/// Calls `to_string` through the `Display` of `serde_json::Value`. Trusted:
/// the result is the text named `json_text`.
#[verifier::external_body]
pub(crate) fn render(value: &serde_json::Value) -> (r: String)
    ensures
        r@ == json_text(*value),
{
    value.to_string()
}

/// The text of member `name` of `document`, unless the member is missing or
/// null.
pub open spec fn member_text_of(document: serde_json::Value, name: Seq<char>) -> Option<
    Seq<char>,
> {
    let found = json_member(document, name);
    if json_is_null(found) {
        None
    } else {
        Some(json_text(found))
    }
}

/// The view of an optional text.
pub open spec fn optional_text(text: Option<String>) -> Option<Seq<char>> {
    match text {
        Some(t) => Some(t@),
        None => None,
    }
}

/// The text of member `name` of `document`, unless the member is missing or
/// null.
pub fn member_text(document: &serde_json::Value, name: &str) -> (r: Option<String>)
    ensures
        optional_text(r) == member_text_of(*document, name@),
{
    let found = member(document, name);
    if is_null(found) {
        None
    } else {
        Some(render(found))
    }
}

} // verus!

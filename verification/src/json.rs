//! JSON documents, read and written by `serde_json`.
//!
//! A document is opaque to the proofs. What they know of it is its `Json`
//! model, and what the items below state of the calls that make, query,
//! change and print one.

use vstd::prelude::*;

verus! {

/// `serde_json::Value`, a JSON document. Its inside is not looked into.
#[verifier::external_type_specification]
#[verifier::external_body]
pub struct ExValue(serde_json::Value);

/// `serde_json::Error`, the error of a parse or a print. Its inside is not
/// looked into.
#[verifier::external_type_specification]
#[verifier::external_body]
pub struct ExJsonError(serde_json::Error);

/// The shape of a JSON document. Object members are unordered here.
pub enum Json {
    Null,
    Bool(bool),
    /// A number, by the digits that write it.
    Number(Seq<char>),
    /// A string.
    Text(Seq<char>),
    /// An array.
    List(Seq<Json>),
    /// An object: its members by name.
    Object(Map<Seq<char>, Json>),
}

/// What a document holds.
pub uninterp spec fn json_model(v: serde_json::Value) -> Json;

/// The document that `serde_json::from_str` makes of a text, where it accepts
/// the text.
pub uninterp spec fn parsed_value(text: Seq<char>) -> Option<serde_json::Value>;

/// The message of the error with which `serde_json::from_str` refuses a text.
pub uninterp spec fn parse_failure(text: Seq<char>) -> Seq<char>;

/// The message that a `serde_json::Error` displays.
pub uninterp spec fn error_message(e: serde_json::Error) -> Seq<char>;

/// What a JSON Pointer addresses in a document, as
/// `serde_json::Value::pointer` resolves it.
pub uninterp spec fn json_at(doc: Json, pointer: Seq<char>) -> Option<Json>;

/// The document left when `serde_json::Map::remove` has taken the member
/// `key` out of the object that is the member `field` of `doc`. It is
/// spoken of only where `doc` has such an object.
pub uninterp spec fn value_without(doc: serde_json::Value, field: Seq<char>, key: Seq<char>)
    -> serde_json::Value;

/// The text that `serde_json::to_string_pretty` prints for a document.
pub uninterp spec fn pretty_text(doc: serde_json::Value) -> Seq<char>;

/// The member `key` of an object; `None` for anything else.
pub open spec fn member_of(doc: Json, key: Seq<char>) -> Option<Json> {
    match doc {
        Json::Object(m) => if m.contains_key(key) {
            Some(m[key])
        } else {
            None
        },
        _ => None,
    }
}

/// The text of a JSON string; `None` for anything else.
pub open spec fn text_in(doc: Json) -> Option<Seq<char>> {
    match doc {
        Json::Text(t) => Some(t),
        _ => None,
    }
}

/// Whether the member `field` of `doc` is an object.
pub open spec fn has_object(doc: Json, field: Seq<char>) -> bool {
    member_of(doc, field) matches Some(Json::Object(_))
}

/// The names of the members of the object under `field`; empty where `doc`
/// has no such member or it is no object.
pub open spec fn member_names(doc: Json, field: Seq<char>) -> Set<Seq<char>> {
    match member_of(doc, field) {
        Some(Json::Object(m)) => m.dom(),
        _ => Set::empty(),
    }
}

/// `doc` with the member `key` taken out of the object under `field`.
pub open spec fn without_member(doc: Json, field: Seq<char>, key: Seq<char>) -> Json {
    match doc {
        Json::Object(m) => match member_of(doc, field) {
            Some(Json::Object(inner)) => Json::Object(
                m.insert(field, Json::Object(inner.remove(key))),
            ),
            _ => doc,
        },
        _ => doc,
    }
}

/// Parses a text with `serde_json::from_str`. The outcome is a function of
/// the text alone: the named document, or the named refusal.
#[verifier::external_body]
pub(crate) fn parse_json(text: &str) -> (r: Result<serde_json::Value, serde_json::Error>)
    ensures
        r is Ok ==> parsed_value(text@) == Some(r->Ok_0),
        r is Err ==> parsed_value(text@) is None && error_message(r->Err_0) == parse_failure(
            text@,
        ),
{
    serde_json::from_str(text)
}

/// The message of a `serde_json::Error`, as its `Display` writes it.
#[verifier::external_body]
pub(crate) fn error_text(e: &serde_json::Error) -> (r: String)
    ensures
        r@ == error_message(*e),
{
    e.to_string()
}

/// `serde_json::Value::get` with a text index: the member of that name where
/// the document is an object that has one, `None` otherwise.
#[verifier::external_body]
pub(crate) fn member<'a>(doc: &'a serde_json::Value, key: &str) -> (r: Option<
    &'a serde_json::Value,
>)
    ensures
        r is Some <==> member_of(json_model(*doc), key@) is Some,
        r is Some ==> json_model(*r->0) == member_of(json_model(*doc), key@)->0,
{
    doc.get(key)
}

/// `serde_json::Value::as_str`: the text where the document is a JSON string,
/// `None` otherwise.
#[verifier::external_body]
pub(crate) fn as_text<'a>(doc: &'a serde_json::Value) -> (r: Option<&'a str>)
    ensures
        r is Some <==> text_in(json_model(*doc)) is Some,
        r is Some ==> r->0@ == text_in(json_model(*doc))->0,
{
    doc.as_str()
}

/// `serde_json::Value::is_object`: whether the document is an object.
#[verifier::external_body]
pub(crate) fn is_object(doc: &serde_json::Value) -> (r: bool)
    ensures
        r == (json_model(*doc) is Object),
{
    doc.is_object()
}

/// `serde_json::Value::pointer`: the value that a JSON Pointer addresses, if
/// there is one.
#[verifier::external_body]
pub(crate) fn lookup<'a>(doc: &'a serde_json::Value, pointer: &str) -> (r: Option<
    &'a serde_json::Value,
>)
    ensures
        r is Some <==> json_at(json_model(*doc), pointer@) is Some,
        r is Some ==> json_model(*r->0) == json_at(json_model(*doc), pointer@)->0,
{
    doc.pointer(pointer)
}

/// `serde_json::Map::remove` on the object that is the member `field` of
/// `doc`, reached through `get_mut` and `as_object_mut`. The caller has seen
/// to it that `doc` has such an object. Returns whether the object held
/// `key`; afterwards it holds it no more, and all else is as it was.
#[verifier::external_body]
pub(crate) fn remove_member(doc: &mut serde_json::Value, field: &str, key: &str) -> (r: bool)
    requires
        has_object(json_model(*old(doc)), field@),
    ensures
        r == member_names(json_model(*old(doc)), field@).contains(key@),
        *final(doc) == value_without(*old(doc), field@, key@),
        json_model(*final(doc)) == without_member(json_model(*old(doc)), field@, key@),
{
    match doc.get_mut(field) {
        Some(inner) => match inner.as_object_mut() {
            Some(object) => object.remove(key).is_some(),
            None => false,
        },
        None => false,
    }
}

/// `serde_json::to_string_pretty` on a document: the named text. For a
/// document it gives no error: a document is made of null, booleans,
/// numbers, strings, arrays and objects with string keys, the printer fails
/// on none of these, and it writes into memory.
#[verifier::external_body]
pub(crate) fn print_pretty(doc: &serde_json::Value) -> (r: Result<String, serde_json::Error>)
    ensures
        r is Ok,
        r->Ok_0@ == pretty_text(*doc),
{
    serde_json::to_string_pretty(doc)
}

} // verus!

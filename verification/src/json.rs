//! Reading single values out of a JSON document, and quoting text for one.
//!
//! The documents are read by `serde_json`. A value inside a document is
//! addressed by a JSON Pointer (RFC 6901): the empty text for the document
//! itself, `/head` for the member `head` of an object, `/chunks/0` for the
//! first item of the list under `chunks`.

use vstd::prelude::*;

verus! {

/// The text that `serde_json` finds at `pointer` in the document `body`;
/// nothing where `body` is no JSON document or holds no text there.
pub uninterp spec fn json_text_found(body: Seq<char>, pointer: Seq<char>) -> Option<Seq<char>>;

/// The integer that `serde_json` finds at `pointer` in the document `body`;
/// nothing where `body` is no JSON document or holds no number there that
/// is an integer within the range of `i64`.
pub uninterp spec fn json_integer_found(body: Seq<char>, pointer: Seq<char>) -> Option<i64>;

/// The truth value that `serde_json` finds at `pointer` in the document
/// `body`; nothing where `body` is no JSON document or holds none there.
pub uninterp spec fn json_bool_found(body: Seq<char>, pointer: Seq<char>) -> Option<bool>;

/// The length of the list that `serde_json` finds at `pointer` in the
/// document `body`; nothing where `body` is no JSON document or holds no list
/// there.
pub uninterp spec fn json_length_found(body: Seq<char>, pointer: Seq<char>) -> Option<usize>;

/// The JSON string literal that `serde_json` writes for a text: the text in
/// double quotes, with the escapes that JSON asks for.
pub uninterp spec fn json_quoted(text: Seq<char>) -> Seq<char>;

/// Parses `body` with `serde_json::from_str`, looks up `pointer` with
/// `Value::pointer` and reads the value there with `Value::as_str`. The
/// result is the one that `json_text_found` names.
#[verifier::external_body]
pub(crate) fn json_text_at(body: &str, pointer: &str) -> (r: Option<String>)
    ensures
        match r {
            Some(text) => json_text_found(body@, pointer@) == Some(text@),
            None => json_text_found(body@, pointer@) is None,
        },
{
    let document: serde_json::Value = serde_json::from_str(body).ok()?;
    document.pointer(pointer)?.as_str().map(str::to_owned)
}

/// Parses `body` with `serde_json::from_str`, looks up `pointer` with
/// `Value::pointer` and reads the value there with `Value::as_i64`. The
/// result is the one that `json_integer_found` names.
#[verifier::external_body]
pub(crate) fn json_integer_at(body: &str, pointer: &str) -> (r: Option<i64>)
    ensures
        r == json_integer_found(body@, pointer@),
{
    let document: serde_json::Value = serde_json::from_str(body).ok()?;
    document.pointer(pointer)?.as_i64()
}

/// Parses `body` with `serde_json::from_str`, looks up `pointer` with
/// `Value::pointer` and reads the value there with `Value::as_bool`. The
/// result is the one that `json_bool_found` names.
#[verifier::external_body]
pub(crate) fn json_bool_at(body: &str, pointer: &str) -> (r: Option<bool>)
    ensures
        r == json_bool_found(body@, pointer@),
{
    let document: serde_json::Value = serde_json::from_str(body).ok()?;
    document.pointer(pointer)?.as_bool()
}

/// Parses `body` with `serde_json::from_str`, looks up `pointer` with
/// `Value::pointer`, reads the value there with `Value::as_array` and takes
/// the length of the list. The result is the one that `json_length_found`
/// names.
#[verifier::external_body]
pub(crate) fn json_length_at(body: &str, pointer: &str) -> (r: Option<usize>)
    ensures
        r == json_length_found(body@, pointer@),
{
    let document: serde_json::Value = serde_json::from_str(body).ok()?;
    document.pointer(pointer)?.as_array().map(Vec::len)
}

/// Writes a text as a JSON string literal, with the `Display` of a
/// `serde_json::Value::String`. The result is the one that `json_quoted`
/// names.
#[verifier::external_body]
pub(crate) fn json_quote(text: &str) -> (r: String)
    ensures
        r@ == json_quoted(text@),
{
    serde_json::Value::String(text.to_owned()).to_string()
}

} // verus!

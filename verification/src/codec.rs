//! Trusted boundary to `serde_json`.
//!
//! The store keeps the index as a JSON array of filename strings and each
//! conversation as one JSON document. Encoding and decoding are done by
//! `serde_json`; the items here give those calls the contracts the rest of
//! the crate is verified against, and give their results names.

use crate::order::views;
use vstd::prelude::*;

verus! {

#[verifier::external_type_specification]
#[verifier::external_body]
pub struct ExValue(serde_json::Value);

#[verifier::external_type_specification]
#[verifier::external_body]
pub struct ExJsonError(serde_json::Error);

/// What `serde_json::from_str::<Vec<String>>` makes of a text: the decoded
/// filename list, or nothing when the text is not a JSON array of strings.
pub uninterp spec fn decoded_index(text: Seq<char>) -> Option<Seq<Seq<char>>>;

/// What `serde_json::to_string_pretty::<Vec<String>>` prints for a filename
/// list.
pub uninterp spec fn printed_index(items: Seq<Seq<char>>) -> Seq<char>;

/// What `serde_json::from_str::<serde_json::Value>` makes of a text: the
/// parsed document, or nothing when the text is not JSON the parser accepts.
pub uninterp spec fn parsed_document(text: Seq<char>) -> Option<serde_json::Value>;

/// What `serde_json::to_string_pretty::<serde_json::Value>` prints for a
/// document.
pub uninterp spec fn printed_document(document: serde_json::Value) -> Seq<char>;

/// Relies on `serde_json::from_str::<Vec<String>>`: decoding depends on the
/// text alone, and succeeds exactly when the text is a JSON array of strings.
#[verifier::external_body]
pub(crate) fn decode_index(text: &str) -> (r: Result<Vec<String>, serde_json::Error>)
    ensures
        match r {
            Ok(entries) => decoded_index(text@) == Some(views(entries@)),
            Err(_) => decoded_index(text@) is None,
        },
{
    serde_json::from_str(text)
}

/// Relies on `serde_json::to_string_pretty::<Vec<String>>`: printing a vector
/// of strings depends on the vector alone and cannot fail (string
/// serialization is infallible and the writer is an in-memory buffer), and
/// `serde_json` decodes its own output back to the same vector.
#[verifier::external_body]
pub(crate) fn encode_index(entries: &Vec<String>) -> (r: String)
    ensures
        r@ == printed_index(views(entries@)),
        decoded_index(r@) == Some(views(entries@)),
{
    serde_json::to_string_pretty(entries).unwrap()
}

/// Relies on `serde_json::from_str::<serde_json::Value>`: what a text parses
/// to depends on the text alone.
#[verifier::external_body]
pub(crate) fn decode_document(text: &str) -> (r: Result<serde_json::Value, serde_json::Error>)
    ensures
        match r {
            Ok(document) => parsed_document(text@) == Some(document),
            Err(_) => parsed_document(text@) is None,
        },
{
    serde_json::from_str(text)
}

/// Relies on `serde_json::to_string_pretty::<serde_json::Value>` and
/// `serde_json::from_str::<serde_json::Value>`: printing a `Value` cannot
/// fail (its map keys are strings, its numbers are finite, and the writer is
/// an in-memory buffer), so the `unwrap` never panics, and what it prints
/// depends on the document alone; but the printer has no nesting-depth limit
/// while the parser stops at 128 levels, so the output is parsed again and a
/// text the parser rejects is reported as an error — exactly when the
/// document's printed text does not parse. An accepted text parses back to
/// the printed document: strings are escaped and unescaped exactly, and with
/// the `float_roundtrip` feature the parser reads back precisely the floats
/// the shortest-form printer wrote.
#[verifier::external_body]
pub(crate) fn encode_document(document: &serde_json::Value) -> (r: Result<
    String,
    serde_json::Error,
>)
    ensures
        r is Err <==> parsed_document(printed_document(*document)) is None,
        match r {
            Ok(text) => text@ == printed_document(*document) && parsed_document(text@) == Some(
                *document,
            ),
            Err(_) => true,
        },
{
    let text = serde_json::to_string_pretty(document).unwrap();
    match serde_json::from_str::<serde_json::Value>(&text) {
        Ok(_) => Ok(text),
        Err(e) => Err(e),
    }
}

/// Relies on the `Display` impl of `serde_json::Error` for a human-readable
/// message; nothing is claimed about the text.
#[verifier::external_body]
pub(crate) fn error_message(e: &serde_json::Error) -> String {
    e.to_string()
}

} // verus!

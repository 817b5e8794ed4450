//! Reading values out of JSON documents by JSON pointer.
//!
//! Each query parses the document bytes with `serde_json` and looks one
//! value up by pointer. What a query returns is named over the bytes and
//! the pointer; the readers of manifests and of the asset index build on
//! those names.

use vstd::prelude::*;

verus! {

/// The message of the parse error of a document, or `None` when it
/// parses.
pub uninterp spec fn json_parse_error(bytes: Seq<u8>) -> Option<Seq<char>>;

/// The string at a pointer of a document.
pub uninterp spec fn json_text(bytes: Seq<u8>, pointer: Seq<char>) -> Option<Seq<char>>;

/// The non-negative integer (fitting `u64`) at a pointer of a document.
pub uninterp spec fn json_u64(bytes: Seq<u8>, pointer: Seq<char>) -> Option<u64>;

/// The number of members of the object at a pointer of a document.
pub uninterp spec fn json_object_len(bytes: Seq<u8>, pointer: Seq<char>) -> Option<nat>;

/// The number of elements of the array at a pointer of a document.
pub uninterp spec fn json_array_len(bytes: Seq<u8>, pointer: Seq<char>) -> Option<nat>;

/// Whether a document has a value (of any kind, `null` too) at a pointer.
pub uninterp spec fn json_present(bytes: Seq<u8>, pointer: Seq<char>) -> bool;

/// The parse error of a document as text, by `serde_json::from_slice`
/// into a `serde_json::Value` and the error's `Display`. The contract
/// names the outcome `json_parse_error` of the bytes.
#[verifier::external_body]
pub(crate) fn json_parse_error_text(bytes: &[u8]) -> (error: Option<String>)
    ensures
        match error {
            Some(e) => json_parse_error(bytes@) == Some(e@),
            None => json_parse_error(bytes@) is None,
        },
{
    match serde_json::from_slice::<serde_json::Value>(bytes) {
        Ok(_) => None,
        Err(e) => Some(e.to_string()),
    }
}

/// The string at `pointer`: `serde_json::from_slice` into a `Value`, then
/// `Value::pointer` and `Value::as_str`; `None` when the bytes do not
/// parse. The contract names the outcome `json_text`.
#[verifier::external_body]
pub(crate) fn json_text_at(bytes: &[u8], pointer: &str) -> (text: Option<String>)
    ensures
        match text {
            Some(t) => json_text(bytes@, pointer@) == Some(t@),
            None => json_text(bytes@, pointer@) is None,
        },
{
    let value: serde_json::Value = match serde_json::from_slice(bytes) {
        Ok(v) => v,
        Err(_) => return None,
    };
    value.pointer(pointer).and_then(serde_json::Value::as_str).map(String::from)
}

/// The integer at `pointer`: `serde_json::from_slice`, `Value::pointer`
/// and `Value::as_u64`; `None` when the bytes do not parse. The contract
/// names the outcome `json_u64`.
#[verifier::external_body]
pub(crate) fn json_u64_at(bytes: &[u8], pointer: &str) -> (n: Option<u64>)
    ensures
        n == json_u64(bytes@, pointer@),
{
    let value: serde_json::Value = match serde_json::from_slice(bytes) {
        Ok(v) => v,
        Err(_) => return None,
    };
    value.pointer(pointer).and_then(serde_json::Value::as_u64)
}

/// The member count of the object at `pointer`: `serde_json::from_slice`,
/// `Value::pointer`, `Value::as_object` and `Map::len`; `None` when the
/// bytes do not parse. The contract names the outcome `json_object_len`.
#[verifier::external_body]
pub(crate) fn json_object_len_at(bytes: &[u8], pointer: &str) -> (n: Option<usize>)
    ensures
        match n {
            Some(k) => json_object_len(bytes@, pointer@) == Some(k as nat),
            None => json_object_len(bytes@, pointer@) is None,
        },
{
    let value: serde_json::Value = match serde_json::from_slice(bytes) {
        Ok(v) => v,
        Err(_) => return None,
    };
    value.pointer(pointer).and_then(serde_json::Value::as_object).map(serde_json::Map::len)
}

/// The element count of the array at `pointer`: `serde_json::from_slice`,
/// `Value::pointer`, `Value::as_array` and `Vec::len`; `None` when the
/// bytes do not parse. The contract names the outcome `json_array_len`.
#[verifier::external_body]
pub(crate) fn json_array_len_at(bytes: &[u8], pointer: &str) -> (n: Option<usize>)
    ensures
        match n {
            Some(k) => json_array_len(bytes@, pointer@) == Some(k as nat),
            None => json_array_len(bytes@, pointer@) is None,
        },
{
    let value: serde_json::Value = match serde_json::from_slice(bytes) {
        Ok(v) => v,
        Err(_) => return None,
    };
    value.pointer(pointer).and_then(serde_json::Value::as_array).map(Vec::len)
}

/// Whether `pointer` finds a value: `serde_json::from_slice` and
/// `Value::pointer`; `false` when the bytes do not parse. The contract
/// names the outcome `json_present`.
#[verifier::external_body]
pub(crate) fn json_present_at(bytes: &[u8], pointer: &str) -> (present: bool)
    ensures
        present == json_present(bytes@, pointer@),
{
    let value: serde_json::Value = match serde_json::from_slice(bytes) {
        Ok(v) => v,
        Err(_) => return false,
    };
    value.pointer(pointer).is_some()
}

} // verus!

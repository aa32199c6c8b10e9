//! Reading values out of JSON texts: the keypair file (an array of bytes)
//! and single fields of JSON-RPC answers.
use vstd::prelude::*;

verus! {

/// The bytes a JSON text holds when it is an array of numbers from 0 to 255
/// (`[12, 34, ...]`), as serde_json deserialises it into `Vec<u8>`.
pub uninterp spec fn json_byte_array_spec(text: Seq<u8>) -> Option<Seq<u8>>;

/// Wraps `serde_json::from_slice::<Vec<u8>>`: `Some` exactly when the text
/// deserialises as an array of bytes, holding the bytes named
/// `json_byte_array_spec`.
#[verifier::external_body]
pub(crate) fn json_byte_array(text: &[u8]) -> (r: Option<Vec<u8>>)
    ensures
        r is Some <==> json_byte_array_spec(text@) is Some,
        r matches Some(v) ==> json_byte_array_spec(text@) == Some(v@),
{
    serde_json::from_slice::<Vec<u8>>(text).ok()
}

/// What stands at a JSON pointer (RFC 6901) in a JSON text: `None` when the
/// text is not one JSON document; otherwise the string found there, if it
/// is a string, and the number found there, if it is an integer that fits
/// in `u64`.
pub uninterp spec fn json_scalar_at_spec(text: Seq<u8>, pointer: Seq<char>) -> Option<
    (Option<Seq<char>>, Option<u64>),
>;

/// Wraps `serde_json::from_slice::<serde_json::Value>` followed by
/// `Value::pointer` and, for a number, `Number::as_u64`: `Err` exactly when
/// the text does not parse, with the parser's message (of which nothing is
/// claimed); otherwise the string and the number at the pointer, as named by
/// `json_scalar_at_spec`.
#[verifier::external_body]
pub(crate) fn json_scalar_at(text: &[u8], pointer: &str) -> (r: Result<(Option<String>, Option<u64>), String>)
    ensures
        r is Err <==> json_scalar_at_spec(text@, pointer@) is None,
        r matches Ok((s, n)) ==> json_scalar_at_spec(text@, pointer@) matches Some((ts, tn)) && tn == n && (
        s matches Some(x) ==> ts == Some(x@)) && (s is None ==> ts is None),
{
    match serde_json::from_slice::<serde_json::Value>(text) {
        Ok(v) => match v.pointer(pointer) {
            Some(serde_json::Value::String(s)) => Ok((Some(s.clone()), None)),
            Some(serde_json::Value::Number(n)) => Ok((None, n.as_u64())),
            _ => Ok((None, None)),
        },
        Err(e) => Err(e.to_string()),
    }
}

/// The string at a pointer of a JSON text; `None` when the text does not
/// parse or holds no string there.
pub open spec fn json_text_at(text: Seq<u8>, pointer: Seq<char>) -> Option<Seq<char>> {
    match json_scalar_at_spec(text, pointer) {
        Some((t, _)) => t,
        None => None,
    }
}

/// The unsigned integer at a pointer of a JSON text; `None` when the text
/// does not parse or holds no such number there.
pub open spec fn json_u64_at(text: Seq<u8>, pointer: Seq<char>) -> Option<u64> {
    match json_scalar_at_spec(text, pointer) {
        Some((_, n)) => n,
        None => None,
    }
}

} // verus!

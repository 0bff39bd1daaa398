//! JSON text, as `serde_json` writes it.

use serde_json::Value;
use vstd::prelude::*;
use vstd::utf8::encode_utf8;

verus! {

/// A JSON value of `serde_json`. It is carried as it is; what it holds is its [`json_text`].
#[verifier::external_type_specification]
#[verifier::external_body]
pub struct ExValue(Value);

/// An error of `serde_json`.
#[verifier::external_type_specification]
#[verifier::external_body]
pub struct ExError(serde_json::Error);

/// What a JSON value holds, written out as compact JSON text.
pub uninterp spec fn json_text(value: Value) -> Seq<char>;

/// `serde_json::to_string` on a [`Value`]: the value's compact JSON text.
///
/// It succeeds on every value: serialising a `Value` fails on no variant, its object keys are
/// strings, and the text is written to memory.
#[verifier::external_body]
pub(crate) fn to_string(value: &Value) -> (r: Result<String, serde_json::Error>)
    ensures
        r is Ok,
        r->Ok_0@ == json_text(*value),
{
    serde_json::to_string(value)
}

/// `serde_json::to_vec` on a [`Value`]: the UTF-8 bytes of the value's compact JSON text.
///
/// `serde_json::to_string` is defined as these bytes taken for a string. It succeeds on every
/// value, as that does.
#[verifier::external_body]
pub(crate) fn to_vec(value: &Value) -> (r: Result<Vec<u8>, serde_json::Error>)
    ensures
        r is Ok,
        r->Ok_0@ == encode_utf8(json_text(*value)),
{
    serde_json::to_vec(value)
}

} // verus!

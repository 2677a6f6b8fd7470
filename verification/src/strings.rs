//! Trusted bridge from payload bytes to `String`.
//!
//! vstd already gives the mathematical model of UTF-8 (`valid_utf8`,
//! `decode_utf8`, `encode_utf8`) and ties `str::as_bytes` to it; the one
//! operation still missing an executable form is checked decoding, so
//! that single call is wrapped here.

use vstd::prelude::*;
use vstd::utf8::decode_utf8;
use vstd::utf8::valid_utf8;

verus! {

/// Relies on `String::from_utf8`: it returns the string whose UTF-8
/// encoding is exactly `bytes` when `bytes` is valid UTF-8, and an
/// error otherwise.  This mirrors the model vstd itself uses for
/// `str::from_utf8_unchecked`.
#[verifier::external_body]
pub(crate) fn bytes_to_string(bytes: Vec<u8>) -> (r: Option<String>)
    ensures
        match r {
            Some(s) => valid_utf8(bytes@) && s@ == decode_utf8(bytes@),
            None => !valid_utf8(bytes@),
        },
{
    match String::from_utf8(bytes) {
        Ok(s) => Some(s),
        Err(_) => None,
    }
}

} // verus!

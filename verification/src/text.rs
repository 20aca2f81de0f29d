//! Strings made from bytes and characters.

use vstd::prelude::*;
use vstd::utf8::{decode_utf8, valid_utf8};

verus! {

/// `std::string::FromUtf8Error`, the error of `String::from_utf8`.
#[verifier::external_type_specification]
#[verifier::external_body]
pub struct ExFromUtf8Error(std::string::FromUtf8Error);

/// Calls `String::from_utf8`, which returns the string whose UTF-8 encoding is
/// `bytes`, or an error where `bytes` are no UTF-8. The contract claims exactly
/// that: `Ok` on valid UTF-8 only, holding the decoded characters.
#[verifier::external_body]
pub(crate) fn string_from_utf8(bytes: Vec<u8>) -> (r: Result<String, std::string::FromUtf8Error>)
    ensures
        r is Ok <==> valid_utf8(bytes@),
        r matches Ok(s) ==> s@ == decode_utf8(bytes@),
{
    String::from_utf8(bytes)
}

/// Calls `ToString::to_string` on the character whose code is `b` (Latin-1).
/// The contract claims that the string holds that one character.
#[verifier::external_body]
pub(crate) fn char_of_byte(b: u8) -> (r: String)
    ensures
        r@ == seq![b as char],
{
    (b as char).to_string()
}

} // verus!

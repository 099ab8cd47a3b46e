//! Contracts for the standard library's string functions that the pipeline calls.

use vstd::prelude::*;
use vstd::utf8::{decode_utf8, valid_utf8};

verus! {

/// The error that `String::from_utf8` hands back; nothing of it is read.
#[verifier::external_type_specification]
#[verifier::external_body]
pub struct ExFromUtf8Error(std::string::FromUtf8Error);

/// `String::push` appends the given character to the end of the string.
pub assume_specification[ String::push ](s: &mut String, ch: char)
    ensures
        final(s)@ == old(s)@.push(ch),
;

/// `String::from_utf8` succeeds exactly on well-formed UTF-8 and then holds
/// the characters that the bytes encode.
pub assume_specification[ String::from_utf8 ](vec: Vec<u8>) -> (r: Result<
    String,
    std::string::FromUtf8Error,
>)
    ensures
        r is Ok <==> valid_utf8(vec@),
        r matches Ok(s) ==> s@ == decode_utf8(vec@),
;

} // verus!

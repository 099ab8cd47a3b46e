//! Text form of the correlation id that tags one invocation.

use vstd::arithmetic::power::pow;
use vstd::prelude::*;

verus! {

/// The lower-case hexadecimal digit for a value below 16.
pub open spec fn hex_digit(value: int) -> char {
    if value < 10 {
        (48 + value) as u8 as char
    } else {
        (87 + value) as u8 as char
    }
}

/// The hexadecimal digit of `id` at place `k` of its 32, the most significant
/// one being place 0.
pub open spec fn nibble(id: u128, k: int) -> int {
    (id as int / pow(16, (31 - k) as nat)) % 16
}

/// The place of the digit that stands at position `pos` of the hyphenated
/// form, where `pos` is not the position of a hyphen.
pub open spec fn digit_place(pos: int) -> int {
    if pos < 8 {
        pos
    } else if pos < 13 {
        pos - 1
    } else if pos < 18 {
        pos - 2
    } else if pos < 23 {
        pos - 3
    } else {
        pos - 4
    }
}

/// The hyphenated form of a 128-bit id: 32 lower-case hexadecimal digits in
/// groups of 8, 4, 4, 4 and 12.
pub open spec fn hyphenated_text(id: u128) -> Seq<char> {
    Seq::new(
        36,
        |pos: int|
            if pos == 8 || pos == 13 || pos == 18 || pos == 23 {
                '-'
            } else {
                hex_digit(nibble(id, digit_place(pos)))
            },
    )
}

/// Formats `id` with the `uuid` crate: `Uuid::from_u128` takes the value in
/// big-endian order, and the `Display` of `Hyphenated` writes its 16 bytes as
/// lower-case hexadecimal digits with hyphens after the 8th, 12th, 16th and
/// 20th digit. Trusted, not proved.
#[verifier::external_body]
pub(crate) fn hyphenated(id: u128) -> (text: String)
    ensures
        text@ == hyphenated_text(id),
{
    uuid::Uuid::from_u128(id).hyphenated().to_string()
}

} // verus!

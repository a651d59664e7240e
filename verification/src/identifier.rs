//! Identifiers, as the `uuid` crate writes them.

use uuid::Uuid;
use vstd::arithmetic::power::pow;
use vstd::prelude::*;

verus! {

/// The small hexadecimal digit for a number below sixteen.
pub open spec fn hex_char(n: int) -> char {
    if n < 10 {
        ('0' as u32 + n) as char
    } else {
        ('a' as u32 + (n - 10)) as char
    }
}

/// The hexadecimal digit at a place of the 32, the highest first.
pub open spec fn hex_digit(id: u128, place: int) -> char {
    hex_char((id as int / pow(16, (31 - place) as nat)) % 16)
}

/// The identifier in 32 hexadecimal digits, in groups of 8, 4, 4, 4 and 12.
pub open spec fn identifier_text(id: u128) -> Seq<char> {
    Seq::new(
        36,
        |i: int|
            if i < 8 {
                hex_digit(id, i)
            } else if i == 8 || i == 13 || i == 18 || i == 23 {
                '-'
            } else if i < 13 {
                hex_digit(id, i - 1)
            } else if i < 18 {
                hex_digit(id, i - 2)
            } else if i < 23 {
                hex_digit(id, i - 3)
            } else {
                hex_digit(id, i - 4)
            },
    )
}

/// Writes the identifier with `uuid::Uuid::from_u128` and its `Display`: hexadecimal digits in
/// small letters, the highest first, with dashes between the groups.
#[verifier::external_body]
pub(crate) fn written_identifier(id: u128) -> (r: String)
    ensures
        r@ == identifier_text(id),
{
    Uuid::from_u128(id).to_string()
}

} // verus!

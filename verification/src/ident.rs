//! Item identifiers: 128-bit values drawn at random and written out as
//! hyphenated lower-case hexadecimal text.

use uuid::Uuid;
use vstd::arithmetic::power::pow;
use vstd::prelude::*;

verus! {

/// The `k`-th hexadecimal digit of `id`, counted from the most significant one
/// (`k` runs from 0 to 31).
pub open spec fn nibble(id: u128, k: int) -> int {
    (id as int / pow(16, (31 - k) as nat)) % 16
}

/// The lower-case character for a hexadecimal digit `0..16`.
pub open spec fn hex_digit(n: int) -> char {
    if n < 10 {
        ('0' as int + n) as char
    } else {
        ('a' as int + n - 10) as char
    }
}

/// Whether position `i` of the 36-character text holds a hyphen.
pub open spec fn is_hyphen_at(i: int) -> bool {
    i == 8 || i == 13 || i == 18 || i == 23
}

/// How many hyphens stand before position `i` of the text.
pub open spec fn hyphens_before(i: int) -> int {
    (if i > 8 { 1int } else { 0 }) + (if i > 13 { 1int } else { 0 })
        + (if i > 18 { 1int } else { 0 }) + (if i > 23 { 1int } else { 0 })
}

/// The text of an identifier: its 32 hexadecimal digits, most significant
/// first, in lower case, in groups of 8, 4, 4, 4 and 12 separated by hyphens.
pub open spec fn hyphenated(id: u128) -> Seq<char> {
    Seq::new(
        36,
        |i: int|
            if is_hyphen_at(i) {
                '-'
            } else {
                hex_digit(nibble(id, i - hyphens_before(i)))
            },
    )
}

/// Whether `id` carries the marks of a randomly generated identifier: digit 12
/// is the version `4`, and the top two bits of digit 16 are `10`.
pub open spec fn is_random_id(id: u128) -> bool {
    nibble(id, 12) == 4 && 8 <= nibble(id, 16) <= 11
}

/// Draws a fresh random identifier.
///
/// Trusted: calls `uuid::Uuid::new_v4` and reads the value with
/// `Uuid::as_u128`. The contract claims only what that function fixes in every
/// identifier it makes, the version and variant bits; the other 122 bits come
/// from the operating system's random source. The call panics if that source
/// cannot be read.
#[verifier::external_body]
pub(crate) fn fresh_id() -> (id: u128)
    ensures
        is_random_id(id),
{
    Uuid::new_v4().as_u128()
}

/// Writes an identifier out as text.
///
/// Trusted: calls `uuid::Uuid::from_u128` and the `Display` impl of `Uuid`
/// through `to_string`. The contract claims that the text is the hyphenated
/// lower-case form of the 128-bit value, which is what that impl prints.
#[verifier::external_body]
pub(crate) fn id_text(id: u128) -> (text: String)
    ensures
        text@ == hyphenated(id),
{
    Uuid::from_u128(id).to_string()
}

} // verus!

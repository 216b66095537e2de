//! Random 128-bit identifiers and the text that stands for them.

use vstd::prelude::*;

verus! {

/// The sixteen digits of lower-case hexadecimal.
pub open spec fn hex_digits() -> Seq<char> {
    seq!['0', '1', '2', '3', '4', '5', '6', '7', '8', '9', 'a', 'b', 'c', 'd', 'e', 'f']
}

/// Whether position `i` of a hyphenated identifier holds a hyphen.
pub open spec fn is_hyphen_at(i: int) -> bool {
    i == 8 || i == 13 || i == 18 || i == 23
}

/// How many hyphens stand before position `i`.
pub open spec fn hyphens_before(i: int) -> int {
    if i > 23 {
        4
    } else if i > 18 {
        3
    } else if i > 13 {
        2
    } else if i > 8 {
        1
    } else {
        0
    }
}

/// The `j`-th of the 32 hexadecimal digits of `id`, the most significant
/// first.
pub open spec fn nibble(id: u128, j: int) -> int {
    ((id >> ((4 * (31 - j)) as u128)) & 0xf) as int
}

/// The text of a 128-bit identifier: its 32 lower-case hexadecimal digits,
/// most significant first, in groups of 8, 4, 4, 4 and 12 joined by
/// hyphens.
pub open spec fn hyphenated(id: u128) -> Seq<char> {
    Seq::new(
        36,
        |i: int|
            if is_hyphen_at(i) {
                '-'
            } else {
                hex_digits()[nibble(id, i - hyphens_before(i))]
            },
    )
}

/// Draws a random identifier: `uuid::Uuid::new_v4`, as a 128-bit number.
/// Nothing is claimed of the value.
#[verifier::external_body]
pub(crate) fn random_uuid() -> (id: u128) {
    uuid::Uuid::new_v4().as_u128()
}

/// The text of an identifier: `uuid::Uuid::from_u128` and the conversion of
/// a `Uuid` into a `String`, which writes the lower-case hyphenated form.
#[verifier::external_body]
pub(crate) fn uuid_text(id: u128) -> (text: String)
    ensures
        text@ == hyphenated(id),
{
    String::from(uuid::Uuid::from_u128(id))
}

} // verus!

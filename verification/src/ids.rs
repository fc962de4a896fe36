//! Identifiers: 128-bit numbers, drawn at random and written as text in the
//! usual way of universally unique identifiers.
use vstd::prelude::*;

verus! {

/// The bits of an identifier that hold its version and its variant.
pub const VERSION_AND_VARIANT_BITS: u128 = 0x0000_0000_0000_f000_c000_0000_0000_0000;

/// What those bits hold in an identifier that was drawn at random: version
/// 4, and the variant of RFC 9562.
pub const RANDOM_VERSION_AND_VARIANT: u128 = 0x0000_0000_0000_4000_8000_0000_0000_0000;

/// Whether `id` carries the marks of an identifier that was drawn at
/// random.
pub open spec fn is_random_id(id: u128) -> bool {
    id & VERSION_AND_VARIANT_BITS == RANDOM_VERSION_AND_VARIANT
}

/// The digit of the value `value`, from 0 to 15, in lower-case hexadecimal
/// notation.
pub open spec fn hex_digit(value: int) -> char {
    if value < 10 {
        (('0' as u8) + value) as char
    } else {
        (('a' as u8) + value - 10) as char
    }
}

/// 16 to the power `exponent`.
pub open spec fn pow16(exponent: nat) -> int
    decreases exponent,
{
    if exponent == 0 {
        1
    } else {
        16 * pow16((exponent - 1) as nat)
    }
}

/// The digit at position `position`, from 0 to 31 and counted from the
/// left, of `id` written with 32 hexadecimal digits.
pub open spec fn id_digit(id: u128, position: int) -> char {
    hex_digit(((id as int) / pow16((31 - position) as nat)) % 16)
}

/// `id` written in the hyphenated form: 32 lower-case hexadecimal digits in
/// groups of 8, 4, 4, 4 and 12, with a hyphen between the groups.
pub open spec fn hyphenated(id: u128) -> Seq<char> {
    Seq::new(
        36,
        |i: int|
            if i == 8 || i == 13 || i == 18 || i == 23 {
                '-'
            } else if i < 8 {
                id_digit(id, i)
            } else if i < 13 {
                id_digit(id, i - 1)
            } else if i < 18 {
                id_digit(id, i - 2)
            } else if i < 23 {
                id_digit(id, i - 3)
            } else {
                id_digit(id, i - 4)
            },
    )
}

/// Draws an identifier at random: the number of the identifier that
/// `uuid::Uuid::new_v4` returns. Which identifier comes is not stated, only
/// that it carries the marks of version 4 and of the variant of RFC 9562,
/// which `new_v4` sets in whatever it draws. `new_v4` panics where the
/// system has no random bytes to give.
#[verifier::external_body]
pub(crate) fn fresh_id() -> (id: u128)
    ensures
        is_random_id(id),
{
    uuid::Uuid::new_v4().as_u128()
}

/// Writes an identifier as text: what `uuid::Uuid`'s `to_string` returns
/// for the identifier with the number `id`, which is its hyphenated form
/// in lower case.
#[verifier::external_body]
pub(crate) fn hyphenated_text(id: u128) -> (text: String)
    ensures
        text@ == hyphenated(id),
{
    uuid::Uuid::from_u128(id).to_string()
}

/// Draws `count` identifiers at random.
pub fn fresh_ids(count: usize) -> (ids: Vec<u128>)
    ensures
        ids@.len() == count,
        forall|i: int| 0 <= i < count ==> is_random_id(#[trigger] ids@[i]),
{
    let mut ids: Vec<u128> = Vec::new();
    let mut i: usize = 0;
    while i < count
        invariant
            i <= count,
            ids@.len() == i,
            forall|k: int| 0 <= k < i ==> is_random_id(#[trigger] ids@[k]),
        decreases count - i,
    {
        ids.push(fresh_id());
        i += 1;
    }
    ids
}

/// The text of an identifier, in the hyphenated form.
pub fn id_to_string(id: u128) -> (text: String)
    ensures
        text@ == hyphenated(id),
        text@.len() == 36,
{
    hyphenated_text(id)
}

} // verus!

//! Identifiers of reminders: 128-bit numbers, written as 32 hexadecimal
//! digits in five groups, and found again by the beginning of that text.

use vstd::prelude::*;
use vstd::arithmetic::power::pow;

verus! {

/// The hexadecimal digit, in lower case, that stands for `value`.
pub open spec fn hex_char(value: int) -> char {
    if value < 10 {
        (value + 48) as char
    } else {
        (value + 87) as char
    }
}

/// The hexadecimal digit of `id` at place `place`, counted from the left
/// of 32.
pub open spec fn hex_digit_of(id: u128, place: int) -> int {
    (id as int / pow(16, (31 - place) as nat)) % 16
}

/// The text of the identifier `id`: its 32 hexadecimal digits in lower
/// case, in groups of 8, 4, 4, 4 and 12 with a hyphen between them.
pub open spec fn id_text(id: u128) -> Seq<char> {
    Seq::new(
        36,
        |at: int|
            if at == 8 || at == 13 || at == 18 || at == 23 {
                '-'
            } else if at < 8 {
                hex_char(hex_digit_of(id, at))
            } else if at < 13 {
                hex_char(hex_digit_of(id, at - 1))
            } else if at < 18 {
                hex_char(hex_digit_of(id, at - 2))
            } else if at < 23 {
                hex_char(hex_digit_of(id, at - 3))
            } else {
                hex_char(hex_digit_of(id, at - 4))
            },
    )
}

/// Whether the short identifier `short` stands for `id`: whether the text
/// of `id` begins with it.
pub open spec fn matches_short(short: Seq<char>, id: u128) -> bool {
    short.is_prefix_of(id_text(id))
}

/// `uuid::Uuid::new_v4`: a random identifier. Nothing is claimed of it.
#[verifier::external_body]
pub(crate) fn fresh_id() -> (id: u128) {
    uuid::Uuid::new_v4().as_u128()
}

/// `uuid::Uuid`'s `to_string`: the hyphenated lower-case text of the
/// identifier whose 128 bits are `id`.
#[verifier::external_body]
pub(crate) fn id_to_text(id: u128) -> (text: String)
    ensures
        text@ == id_text(id),
{
    uuid::Uuid::from_u128(id).to_string()
}

/// Tells whether `full` begins with `short`.
pub fn begins_with(full: &Vec<char>, short: &Vec<char>) -> (begins: bool)
    ensures
        begins == short@.is_prefix_of(full@),
{
    if short.len() > full.len() {
        return false;
    }
    let mut i: usize = 0;
    while i < short.len()
        invariant
            i <= short.len() <= full.len(),
            forall|j: int| 0 <= j < i ==> short@[j] == full@[j],
        decreases short.len() - i,
    {
        if short[i] != full[i] {
            assert(full@.subrange(0, short@.len() as int)[i as int] != short@[i as int]);
            return false;
        }
        i = i + 1;
    }
    assert(short@ =~= full@.subrange(0, short@.len() as int));
    true
}

/// Tells whether the short identifier `short` stands for `id`.
pub fn short_id_matches(short: &Vec<char>, id: u128) -> (matches: bool)
    ensures
        matches == matches_short(short@, id),
{
    let text = id_to_text(id);
    let full = crate::text::chars_of(text.as_str());
    begins_with(&full, short)
}

} // verus!

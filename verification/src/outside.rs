//! What the library takes from other crates: the reading and writing of
//! UUIDs in their usual text forms, and the length of a day.
//!
//! The contracts in this file are not proved. Each says what the function
//! that it wraps is documented to do.

use vstd::prelude::*;

verus! {

/// The UUID that a text stands for, in any of the forms that the `uuid`
/// crate reads (32 hexadecimal digits; the same in five groups with hyphens;
/// that in braces; that after `urn:uuid:`), or `None` for any other text.
pub uninterp spec fn uuid_text_value(s: Seq<char>) -> Option<u128>;

/// 16 to the power `n`.
pub open spec fn pow16(n: nat) -> nat
    decreases n,
{
    if n == 0 {
        1
    } else {
        16 * pow16((n - 1) as nat)
    }
}

/// The hexadecimal digit of a UUID at place `j` of 32, counted from the most
/// significant.
pub open spec fn uuid_hex_digit(u: u128, j: int) -> int {
    (u as int / pow16((31 - j) as nat) as int) % 16
}

/// The place among the 32 hexadecimal digits of the character at place `i`
/// of the 36 of the text: the hyphens before it are not counted.
pub open spec fn uuid_hex_place(i: int) -> int {
    if i < 8 {
        i
    } else if i < 13 {
        i - 1
    } else if i < 18 {
        i - 2
    } else if i < 23 {
        i - 3
    } else {
        i - 4
    }
}

/// The text of a UUID as the `uuid` crate writes it: 36 characters, the 32
/// hexadecimal digits of the value in lower case, most significant first, in
/// groups of 8, 4, 4, 4 and 12 with a hyphen between each two.
pub open spec fn uuid_text(u: u128) -> Seq<char> {
    Seq::new(
        36,
        |i: int|
            if i == 8 || i == 13 || i == 18 || i == 23 {
                '-'
            } else {
                "0123456789abcdef"@[uuid_hex_digit(u, uuid_hex_place(i))]
            },
    )
}

/// Reads a UUID with `uuid::Uuid::parse_str` and gives its 128 bits, most
/// significant first, with `Uuid::as_u128`. The result depends on the text
/// alone; a text that is no UUID gives `None`.
#[verifier::external_body]
pub(crate) fn parse_uuid(s: &str) -> (r: Option<u128>)
    ensures
        r == uuid_text_value(s@),
{
    match uuid::Uuid::parse_str(s) {
        Ok(u) => Some(u.as_u128()),
        Err(_) => None,
    }
}

/// Writes a UUID as text: `uuid::Uuid::from_u128`, which takes the 128 bits
/// most significant first, then its `Display`, which writes the lower-case
/// hyphenated form whatever the formatter's flags.
#[verifier::external_body]
pub(crate) fn format_uuid(u: u128) -> (s: String)
    ensures
        s@ == uuid_text(u),
{
    uuid::Uuid::from_u128(u).to_string()
}

/// The number of seconds in a number of days, from `chrono::Duration::days`
/// and `Duration::num_seconds`: 86 400 for each day. `Duration::days` panics
/// where the duration is more than `i64::MAX` milliseconds, which the bound
/// on `days` keeps far away.
#[verifier::external_body]
pub(crate) fn seconds_in_days(days: i64) -> (s: i64)
    requires
        -100_000_000 <= days <= 100_000_000,
    ensures
        s == days * 86_400,
{
    chrono::Duration::days(days).num_seconds()
}

} // verus!

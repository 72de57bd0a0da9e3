//! Identifiers: connection numbers, agent ids and request ids, and the UUID text forms the daemon
//! reads and writes.

use vstd::arithmetic::power::pow;
use vstd::prelude::*;

use crate::text::digit_char;

verus! {

/// A connection number. The network layer hands them out from a counter that never repeats.
pub type ConnId = u64;

/// An agent (and profile) id — a UUID held as its 128-bit value.
pub type AgentId = u128;

/// The correlation key of one command round trip — a UUID held as its 128-bit value.
pub type RequestId = u128;

/// The UUID that `uuid::Uuid::parse_str` reads from `text`, if it reads one.
pub uninterp spec fn uuid_parse(text: Seq<char>) -> Option<u128>;

/// The `k`-th hex digit (0 = most significant) of a UUID's 32.
pub open spec fn uuid_nibble(id: u128, k: int) -> nat {
    ((id as int / pow(16, (31 - k) as nat)) % 16) as nat
}

/// Which of the 32 hex digits stands at position `i` of the hyphenated text.
pub open spec fn uuid_digit_at(i: int) -> int {
    if i < 8 {
        i
    } else if i < 13 {
        i - 1
    } else if i < 18 {
        i - 2
    } else if i < 23 {
        i - 3
    } else {
        i - 4
    }
}

/// The hyphenated lowercase text `uuid::Uuid`'s `Display` gives a UUID: its 32 hex digits, most
/// significant first, in groups of 8-4-4-4-12 joined by `-`.
pub open spec fn uuid_text(id: u128) -> Seq<char> {
    Seq::new(
        36,
        |i: int|
            if i == 8 || i == 13 || i == 18 || i == 23 {
                '-'
            } else {
                digit_char(uuid_nibble(id, uuid_digit_at(i)))
            },
    )
}

/// Reads a UUID with `uuid::Uuid::parse_str` (hyphenated, simple, braced or urn form).
///
/// Trusted: the result is what `parse_str` returns, named by `uuid_parse`; the grammar itself is
/// uuid's and is not restated here. One fact of it is stated: the hyphenated lowercase text
/// `format_uuid` writes (36 bytes, hex digits with hyphens at 8, 13, 18, 23, read big-endian)
/// reads back as the same UUID.
#[verifier::external_body]
pub(crate) fn parse_uuid(text: &str) -> (r: Option<u128>)
    ensures
        r == uuid_parse(text@),
        forall|id: u128| #[trigger] uuid_text(id) == text@ ==> r == Some(id),
{
    uuid::Uuid::parse_str(text).ok().map(|u| u.as_u128())
}

/// Writes a UUID in the hyphenated lowercase form of `uuid::Uuid`'s `Display`.
///
/// Trusted: `Display` writes the lowercase hyphenated form of the UUID's big-endian bytes, as
/// `uuid_text` states it.
#[verifier::external_body]
pub(crate) fn format_uuid(id: u128) -> (s: String)
    ensures
        s@ == uuid_text(id),
{
    uuid::Uuid::from_u128(id).to_string()
}

/// A fresh random (version 4) UUID from `uuid::Uuid::new_v4`.
///
/// Trusted, and nothing is stated of the value: it comes from the random source.
#[verifier::external_body]
pub(crate) fn new_request_id() -> (id: u128) {
    uuid::Uuid::new_v4().as_u128()
}

} // verus!

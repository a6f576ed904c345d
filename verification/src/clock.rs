//! Identifiers and instants: the random node identifiers of `uuid` and the
//! wall clock and RFC 3339 parser of `chrono`.
//!
//! Instants are held throughout the library as microseconds since the Unix
//! epoch.

use vstd::prelude::*;

verus! {

/// Whether `c` is a lower-case hexadecimal digit.
pub open spec fn is_lower_hex(c: char) -> bool {
    ('0' <= c && c <= '9') || ('a' <= c && c <= 'f')
}

/// Whether `s` is a UUID in hyphenated form: 36 characters, hyphens at
/// positions 8, 13, 18 and 23 and lower-case hexadecimal digits elsewhere.
pub open spec fn is_hyphenated_uuid(s: Seq<char>) -> bool {
    &&& s.len() == 36
    &&& forall|i: int|
        0 <= i < 36 ==> if i == 8 || i == 13 || i == 18 || i == 23 {
            s[i] == '-'
        } else {
            is_lower_hex(#[trigger] s[i])
        }
}

/// Whether `s` is a hyphenated version 4 UUID: the version digit `4` at
/// position 14 and a variant digit `8`, `9`, `a` or `b` at position 19.
pub open spec fn is_uuid_v4(s: Seq<char>) -> bool {
    &&& is_hyphenated_uuid(s)
    &&& s[14] == '4'
    &&& (s[19] == '8' || s[19] == '9' || s[19] == 'a' || s[19] == 'b')
}

/// A fresh random node identifier: `uuid::Uuid::new_v4()` rendered by its
/// `Display` impl, which writes the hyphenated lower-case form; `new_v4`
/// sets the version and variant bits. Which identifier comes out is left
/// open: it is random.
#[verifier::external_body]
pub fn new_node_id() -> (id: String)
    ensures
        is_uuid_v4(id@),
{
    uuid::Uuid::new_v4().to_string()
}

/// The current instant, `chrono::Utc::now().timestamp_micros()`. `Utc::now`
/// panics on a clock set before the Unix epoch, so the instant it returns is
/// not negative; which instant it is depends on the clock and is left open.
#[verifier::external_body]
pub fn now_micros() -> (t: i64)
    ensures
        t >= 0,
{
    chrono::Utc::now().timestamp_micros()
}

/// The instant (microseconds since the Unix epoch) that `chrono` reads from
/// an RFC 3339 text, or `None` where it refuses the text.
pub uninterp spec fn rfc3339_micros(text: Seq<char>) -> Option<i64>;

/// `chrono::DateTime::parse_from_rfc3339`, read as microseconds since the
/// Unix epoch with `timestamp_micros`; `None` where chrono refuses the text.
/// The result is named by `rfc3339_micros` and not stated further.
#[verifier::external_body]
pub fn parse_rfc3339_micros(text: &str) -> (r: Option<i64>)
    ensures
        r == rfc3339_micros(text@),
{
    match chrono::DateTime::parse_from_rfc3339(text) {
        Ok(dt) => Some(dt.timestamp_micros()),
        Err(_) => None,
    }
}

} // verus!

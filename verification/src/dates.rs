//! Timestamps: reading them from the metadata index, reading them from query
//! values, and comparing them by UTC calendar day.

use vstd::prelude::*;

verus! {

/// The Unix-seconds instant an RFC 3339 timestamp denotes, if the text is
/// one; reading it depends on the text alone.
pub uninterp spec fn rfc3339_of(s: Seq<char>) -> Option<i64>;

/// Relies on `chrono::DateTime::parse_from_rfc3339`: reads an RFC 3339
/// timestamp and yields the instant it denotes, in seconds since the epoch.
#[verifier::external_body]
pub fn parse_rfc3339(s: &str) -> (r: Option<i64>)
    ensures
        r == rfc3339_of(s@),
{
    chrono::DateTime::parse_from_rfc3339(s).ok().map(|d| d.timestamp())
}

/// The instants whose RFC 3339 text carries a four-digit year — years 0000
/// through 9999 — and so reads back exactly as written. The strict reader
/// refuses the five-digit years the writer uses outside this range.
pub open spec fn rfc3339_writable(ts: int) -> bool {
    -62167219200 <= ts <= 253402300799
}

/// Relies on `dateparser::parse_with_timezone`: reads a free-form date
/// expression against the machine's local time zone. Which instant a given
/// text denotes may depend on the clock, the locale and the environment, so
/// nothing more is stated of the result.
#[verifier::external_body]
pub fn parse_date_query(s: &str) -> Option<i64> {
    dateparser::parse_with_timezone(s, &chrono::Local).ok().map(|d| d.timestamp())
}

/// The UTC calendar day an instant falls on, as days since the epoch
/// (Euclidean division, so instants before the epoch land on earlier days).
pub open spec fn spec_day_of(ts: int) -> int {
    ts / 86400
}

/// Maps an instant to its UTC calendar day.
pub fn day_of(ts: i64) -> (r: i64)
    ensures
        r == spec_day_of(ts as int),
{
    match ts.checked_div_euclid(86400) {
        Some(d) => d,
        None => 0,  // unreachable: the divisor is positive
    }
}

} // verus!

//! RFC 3339 timestamps, as the chat platforms send them.
use vstd::prelude::*;

verus! {

/// The Unix time, in whole seconds, of an RFC 3339 date-time, as chrono's
/// parser reads it (`None` where it does not parse).
pub uninterp spec fn rfc3339_seconds(s: Seq<char>) -> Option<i64>;

/// Parses an RFC 3339 date-time to Unix seconds.
///
/// Trusted: `chrono::DateTime::parse_from_rfc3339`, then `DateTime::timestamp`
/// of the parsed value; the result is named (`rfc3339_seconds`), a function
/// of the text alone.
#[verifier::external_body]
pub(crate) fn parse_rfc3339_seconds(s: &str) -> (r: Option<i64>)
    ensures
        r == rfc3339_seconds(s@),
{
    chrono::DateTime::parse_from_rfc3339(s).ok().map(|t| t.timestamp())
}

/// The time of an optional RFC 3339 text, or `now_s` where there is none
/// or it does not parse.
pub open spec fn seconds_or_now(s: Option<Seq<char>>, now_s: i64) -> i64 {
    match s {
        Some(t) => match rfc3339_seconds(t) {
            Some(v) => v,
            None => now_s,
        },
        None => now_s,
    }
}

/// The time of an optional RFC 3339 text, or `now_s`.
pub fn time_or_now(s: Option<&str>, now_s: i64) -> (t: i64)
    ensures
        t == seconds_or_now(
            match s {
                Some(x) => Some(x@),
                None => None,
            },
            now_s,
        ),
{
    match s {
        Some(x) => match parse_rfc3339_seconds(x) {
            Some(v) => v,
            None => now_s,
        },
        None => now_s,
    }
}

} // verus!

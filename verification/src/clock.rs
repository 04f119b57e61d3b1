//! Time stamps: UTC instants and the parsing of API time strings.
use vstd::prelude::*;

verus! {

/// A UTC instant as `chrono` reads a `DateTime<Utc>`: whole seconds since the Unix epoch
/// (`DateTime::timestamp`) and the nanoseconds past that second
/// (`DateTime::timestamp_subsec_nanos`, 10^9 and more during a leap second).
pub type UtcTime = (i64, u32);

/// The instant that `chrono`'s `DateTime<Utc>` parsing (`str::parse`, a relaxed RFC 3339
/// form) gives for a text, read as whole seconds since the Unix epoch (`DateTime::timestamp`)
/// and the nanoseconds past that second (`DateTime::timestamp_subsec_nanos`); none when the
/// text does not parse.
pub uninterp spec fn parsed_timestamp(text: Seq<char>) -> Option<(i64, u32)>;

/// Parses an API time such as `2024-05-01T12:00:00Z` with
/// `str::parse::<chrono::DateTime<chrono::Utc>>` and reads it as a Unix time stamp in
/// whole seconds (`DateTime::timestamp`) with the nanoseconds past that second
/// (`DateTime::timestamp_subsec_nanos`); a parse error gives `None`. The contract names the
/// result by `parsed_timestamp`.
#[verifier::external_body]
pub(crate) fn parse_timestamp(text: &str) -> (t: Option<(i64, u32)>)
    ensures
        t == parsed_timestamp(text@),
{
    match text.parse::<chrono::DateTime<chrono::Utc>>() {
        Ok(dt) => Some((dt.timestamp(), dt.timestamp_subsec_nanos())),
        Err(_) => None,
    }
}

/// The instant of an API time text, or `now` where it does not parse.
pub open spec fn timestamp_or(text: Seq<char>, now: UtcTime) -> UtcTime {
    match parsed_timestamp(text) {
        Some(t) => t,
        None => now,
    }
}

/// The instant of an API time text, with `now` standing in where it does not parse.
pub fn timestamp_or_now(text: &str, now: UtcTime) -> (t: UtcTime)
    ensures
        t == timestamp_or(text@, now),
{
    match parse_timestamp(text) {
        Some(t) => t,
        None => now,
    }
}

} // verus!

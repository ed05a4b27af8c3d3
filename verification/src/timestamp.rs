//! Normalizing a leading ISO-8601-like timestamp into separate date and time
//! strings, through chrono.

use vstd::prelude::*;

verus! {

/// What chrono computes for a timestamp string: the `YYYY-MM-DD` date part
/// and the `HH:MM:SS` part with six fractional digits when the string parses
/// as an RFC 3339 timestamp, and two empty strings when it does not.  The
/// result depends on the characters of the string alone.
pub uninterp spec fn norm_timestamp(s: Seq<char>) -> (Seq<char>, Seq<char>);

/// Relies on chrono: `str::parse::<DateTime<Utc>>` (a relaxed RFC 3339 form,
/// any offset converted to UTC) and `DateTime::format` with the `%Y-%m-%d`
/// and `%H:%M:%S%.6f` patterns.  A string that does not parse yields two
/// empty strings, never an error: a record with a bad timestamp must still
/// be emitted.
#[verifier::external_body]
pub(crate) fn normalize_timestamp(s: &str) -> (r: (String, String))
    ensures
        r.0@ == norm_timestamp(s@).0,
        r.1@ == norm_timestamp(s@).1,
{
    match s.parse::<chrono::DateTime<chrono::Utc>>() {
        Ok(dt) => (dt.format("%Y-%m-%d").to_string(), dt.format("%H:%M:%S%.6f").to_string()),
        Err(_) => (String::new(), String::new()),
    }
}

} // verus!

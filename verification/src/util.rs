//! Trusted sources of fresh identifiers and timestamps.

use vstd::prelude::*;

verus! {

/// Relies on uuid::Uuid::new_v4 and its hyphenated lower-case rendering:
/// a fresh random identifier, always 36 characters long. Nothing else is
/// promised of a random value.
#[verifier::external_body]
pub fn fresh_event_id() -> (r: String)
    ensures
        r@.len() == 36,
{
    uuid::Uuid::new_v4().to_string()
}

/// Relies on chrono::Utc::now: the current Unix timestamp in seconds.
/// Nothing is promised of the clock's reading.
#[verifier::external_body]
pub fn now_timestamp() -> i64 {
    chrono::Utc::now().timestamp()
}

} // verus!

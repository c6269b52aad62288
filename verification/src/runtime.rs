//! Identifiers and timestamps drawn from the process environment.
//!
//! Nothing useful can be promised of a freshly drawn identifier or of the
//! clock, so the callers check what they need of these values themselves
//! and the verified store operations take them as arguments.

use vstd::prelude::*;

verus! {

/// Relies on uuid's `Uuid::new_v4` (random identifier) and `Uuid::as_u128`
/// (the identifier's 128 bits). The result is random: callers must check
/// freshness against their stores themselves.
#[verifier::external_body]
pub fn fresh_id() -> u128 {
    uuid::Uuid::new_v4().as_u128()
}

/// Relies on chrono's `Utc::now` and `DateTime::timestamp` (whole seconds
/// since the Unix epoch). The result depends on the clock: nothing is
/// promised of it.
#[verifier::external_body]
pub fn now_timestamp() -> i64 {
    chrono::Utc::now().timestamp()
}

} // verus!

//! What the library takes from the machine: the wall clock and randomness.

use vstd::prelude::*;

verus! {

/// Relies on chrono's `Utc::now` and `DateTime::timestamp`: the current time
/// as whole seconds since the Unix epoch. Nothing is promised of the value.
#[verifier::external_body]
pub(crate) fn unix_now() -> (r: i64) {
    chrono::Utc::now().timestamp()
}

/// Relies on uuid's `Uuid::new_v4` and its `Display`: a random version-4
/// UUID in text form. Nothing is promised of it, not even that it is new.
#[verifier::external_body]
pub(crate) fn random_uuid() -> (r: String) {
    uuid::Uuid::new_v4().to_string()
}

} // verus!

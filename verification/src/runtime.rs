//! Trusted boundary to the platform: identifier generation, the wall
//! clock, and random numbers. Nothing useful can be promised of any of
//! these results, so every caller must state what holds whatever comes
//! back.

use vstd::prelude::*;

verus! {

/// Relies on `uuid::Uuid::new_v4` and `Uuid::as_u128`: a freshly generated
/// random version-4 identifier, carried as its 128-bit value. The value is
/// random, so nothing is promised of it; uniqueness is enforced by the
/// stores, never assumed.
#[verifier::external_body]
pub(crate) fn fresh_id() -> u128 {
    uuid::Uuid::new_v4().as_u128()
}

/// Relies on `chrono::Utc::now` and `DateTime::timestamp_millis`: the
/// current wall-clock time as milliseconds since the Unix epoch. The clock
/// is not monotonic, so nothing is promised of the value.
#[verifier::external_body]
pub(crate) fn now_millis() -> i64 {
    chrono::Utc::now().timestamp_millis()
}

/// Relies on `rand::random`: a value drawn from the standard distribution.
/// The draw is random, so nothing is promised of it.
pub assume_specification<T>[ rand::random::<T> ]() -> (r: T)
    where
        rand::distributions::Standard: rand::distributions::Distribution<T>,
;

} // verus!

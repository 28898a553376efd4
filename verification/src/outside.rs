//! The calls that leave the verified code. Verus takes the contracts written
//! here on trust: nothing below is proved.

use vstd::prelude::*;

verus! {

/// Calls `uuid::Uuid::new_v4` and returns the identifier as the 128-bit
/// number that `Uuid::as_u128` gives. The identifier is random, so nothing is
/// claimed about it.
#[verifier::external_body]
pub(crate) fn fresh_id() -> (id: u128) {
    uuid::Uuid::new_v4().as_u128()
}

/// Calls `chrono::Utc::now` and returns the moment as the count of
/// milliseconds since the Unix epoch that `DateTime::timestamp_millis`
/// gives. The reading depends on the clock, so nothing is claimed about it.
#[verifier::external_body]
pub(crate) fn utc_now_millis() -> (now: i64) {
    chrono::Utc::now().timestamp_millis()
}

} // verus!

//! The current time and fresh identifiers, taken from chrono and uuid.

use vstd::prelude::*;
use crate::models::Timestamp;

verus! {

/// Relies on chrono::Utc::now, read back with DateTime::timestamp and
/// DateTime::timestamp_subsec_nanos: the current time. Nothing is promised
/// of its value.
#[verifier::external_body]
pub(crate) fn now() -> (t: Timestamp) {
    let n = chrono::Utc::now();
    Timestamp { secs: n.timestamp(), nanos: n.timestamp_subsec_nanos() }
}

/// Relies on uuid::Uuid::new_v4, read back with Uuid::as_u128: a random
/// identifier. Nothing is promised of its value.
#[verifier::external_body]
pub(crate) fn fresh_id() -> (r: u128) {
    uuid::Uuid::new_v4().as_u128()
}

} // verus!

//! What the ledger takes from its surroundings: the time and fresh
//! identifiers. Nothing is known of either before it is read.

use std::time::UNIX_EPOCH;
use uuid::Uuid;
use vstd::prelude::*;

verus! {

/// Calls `Uuid::new_v4` of `uuid` and gives its usual rendering. The value is
/// random: nothing is promised of it.
#[verifier::external_body]
pub(crate) fn fresh_identifier() -> String {
    Uuid::new_v4().to_string()
}

/// Calls `SystemTime::elapsed` of std on the Unix epoch and gives the whole
/// seconds, or nothing where the clock reads a time before the epoch.
/// Nothing is promised of the value.
#[verifier::external_body]
pub(crate) fn unix_time() -> Option<u64> {
    match UNIX_EPOCH.elapsed() {
        Ok(elapsed) => Some(elapsed.as_secs()),
        Err(_) => None,
    }
}

} // verus!

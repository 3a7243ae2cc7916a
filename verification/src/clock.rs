//! The local clock.
use vstd::prelude::*;

verus! {

/// `chrono::Utc::now` and `DateTime::timestamp_millis`: the time of the
/// local clock in milliseconds since the Unix epoch, UTC. Nothing is
/// claimed of the value. `chrono` panics where the system clock reads
/// earlier than the epoch.
#[verifier::external_body]
pub(crate) fn now_epoch_ms() -> i64 {
    chrono::Utc::now().timestamp_millis()
}

} // verus!

pub mod accounts;
pub mod certificates;
pub mod client;
pub mod daemon;
pub mod diagnostics;
pub mod handoff;
pub mod ipn;
pub mod json_fields;
pub mod keyed;
pub mod mutation;
pub mod policy;
pub mod preferences;
pub mod process;
pub mod service_task;
pub mod services;
pub mod streaming;
pub mod transfers;

use vstd::prelude::*;

use crate::domain::Timestamp;

verus! {

/// Seconds since the Unix epoch by the system clock (`SystemTime::now`),
/// zero where the clock reads before the epoch. The clock is read, so
/// nothing is promised of the value.
#[verifier::external_body]
pub fn now() -> Timestamp {
    match std::time::SystemTime::now().duration_since(std::time::UNIX_EPOCH) {
        Ok(duration) => duration.as_secs(),
        Err(_) => 0,
    }
}

} // verus!

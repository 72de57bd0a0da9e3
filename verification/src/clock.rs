//! The clock round trips are timed by, behind a port so that tests can drive time by hand.

use std::time::Instant;
use vstd::prelude::*;

verus! {

/// The moment now, as an opaque instant.
#[verifier::external_type_specification]
#[verifier::external_body]
pub struct ExInstant(Instant);

/// Where round trips read the time.
pub trait Clock {
    fn now(&self) -> Instant;
}

/// The system's monotonic clock.
pub struct SystemClock;

/// Reads the monotonic clock (`std::time::Instant::now`).
///
/// Trusted, and nothing is stated of the instant: it comes from the machine.
#[verifier::external_body]
fn instant_now() -> Instant {
    Instant::now()
}

impl Clock for SystemClock {
    fn now(&self) -> Instant {
        instant_now()
    }
}

} // verus!

//! The monotonic clock of the standard library, as far as the widget reads it.

use std::time::Duration;
use std::time::Instant;
use vstd::prelude::*;

verus! {

/// `std::time::Instant`: a reading of the monotonic clock. Nothing is known of its value.
#[verifier::external_type_specification]
#[verifier::external_body]
pub struct ExInstant(Instant);

/// `Instant::now` reads the clock. Its result differs from call to call, so nothing is
/// promised of it.
pub assume_specification[ Instant::now ]() -> Instant
;

/// `Instant::elapsed` gives the time since the reading was taken. It depends on the
/// clock, so nothing is promised of it.
pub assume_specification[ Instant::elapsed ](t: &Instant) -> Duration
;

/// `Duration::as_secs` gives the whole seconds of a duration. Durations are opaque
/// here, so nothing is promised of the number.
pub assume_specification[ Duration::as_secs ](d: &Duration) -> u64
;

} // verus!

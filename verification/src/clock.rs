//! The monotonic clock of std, as far as a session reads it.

use std::time::{Duration, Instant};
use vstd::prelude::*;

verus! {

/// `std::time::Instant`, a reading of the monotonic clock. Nothing is known
/// of what a value holds.
#[verifier::external_type_specification]
#[verifier::external_body]
pub struct ExInstant(Instant);

/// `Instant::now` of std: the clock's present reading. Nothing is claimed of
/// it.
pub assume_specification[ Instant::now ]() -> (now: Instant)
;

/// `Instant::elapsed` of std: the time that has passed since the reading was
/// taken. Nothing is claimed of it.
pub assume_specification[ Instant::elapsed ](start: &Instant) -> (passed: Duration)
;

/// `Duration::default` of std: a duration of no time. Nothing is claimed of
/// it.
pub assume_specification[ <Duration as Default>::default ]() -> (zero: Duration)
;

} // verus!

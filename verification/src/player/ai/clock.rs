//! Wall-clock time for the search's time budget.

use vstd::prelude::*;
use std::time::{Duration, Instant};

verus! {

/// `std::time::Instant`, a point in time that only the clock can read.
#[verifier::external_type_specification]
#[verifier::external_body]
pub struct ExInstant(Instant);

/// `Instant::now` of std: the present moment. Nothing is claimed of it.
pub assume_specification[ Instant::now ]() -> (t: Instant);

/// `Instant::elapsed` of std: the time that has passed since the instant.
/// Nothing is claimed of it.
pub assume_specification[ Instant::elapsed ](t: &Instant) -> (d: Duration);

/// `Duration::as_millis` of std: the whole milliseconds of a duration.
/// Nothing is claimed of the number.
pub assume_specification[ Duration::as_millis ](d: &Duration) -> (ms: u128);

/// The whole milliseconds that have passed since `start`.
pub fn millis_since(start: &Instant) -> (ms: u128) {
    let d = start.elapsed();
    d.as_millis()
}

} // verus!

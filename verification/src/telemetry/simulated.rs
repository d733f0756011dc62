use vstd::prelude::*;

use std::time::Instant;

verus! {

/// `std::time::Instant`, a point in monotonic time.
#[verifier::external_type_specification]
#[verifier::external_body]
pub struct ExInstant(Instant);

/// `Instant::now`: the current time. Nothing is stated of the result, which
/// depends on the clock.
#[verifier::external_body]
fn instant_now() -> Instant {
    Instant::now()
}

/// A demonstration source that synthesises plausible GPU readings from the
/// time since it was created.
pub struct SimulatedCollector {
    start_time: Instant,
}

impl View for SimulatedCollector {
    type V = Instant;

    /// The moment the source was created.
    closed spec fn view(&self) -> Instant {
        self.start_time
    }
}

impl SimulatedCollector {
    /// A source whose clock starts now.
    pub fn new() -> (r: Self) {
        SimulatedCollector { start_time: instant_now() }
    }

    /// The moment the source was created.
    pub fn start_time(&self) -> (r: Instant)
        ensures
            r == self@,
    {
        self.start_time
    }
}

} // verus!

//! Timing hooks around hot paths.

use std::time::Instant;

use vstd::prelude::*;

verus! {

#[verifier::external_type_specification]
#[verifier::external_body]
pub struct ExInstant(Instant);

/// Reads the monotonic clock (`Instant::now`).
#[verifier::external_body]
fn clock_now() -> Instant {
    Instant::now()
}

/// A span around a hot path: its label and when it started.
pub struct ScopedTimer {
    label: &'static str,
    started: Instant,
}

impl ScopedTimer {
    /// Starts a span named `label` now.
    pub fn new(label: &'static str) -> (r: Self)
        ensures
            r.label() == label,
    {
        ScopedTimer { label, started: clock_now() }
    }

    pub closed spec fn label(&self) -> &'static str {
        self.label
    }
}

} // verus!

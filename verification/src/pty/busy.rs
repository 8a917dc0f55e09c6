//! Busy detection where the foreground process group cannot be asked: a tab
//! is busy when PTY output arrived within the configured window.

use vstd::prelude::*;

verus! {

/// The busy window in nanoseconds; a window of 0 ms counts as 1 ms.
pub open spec fn busy_window_nanos(heuristic_ms: u64) -> nat {
    (if heuristic_ms == 0 { 1 } else { heuristic_ms as nat }) * 1_000_000
}

/// Busy exactly when output arrived, and less than the window ago.
pub fn output_age_is_busy(age_nanos: Option<u128>, heuristic_ms: u64) -> (r: bool)
    ensures
        r == (age_nanos matches Some(age) && age < busy_window_nanos(heuristic_ms)),
{
    let window_ms: u128 = if heuristic_ms == 0 { 1 } else { heuristic_ms as u128 };
    assert(window_ms * 1_000_000 <= u64::MAX as int * 1_000_000) by (nonlinear_arith)
        requires
            window_ms <= u64::MAX,
    ;
    let window = window_ms * 1_000_000;
    match age_nanos {
        Some(age) => age < window,
        None => false,
    }
}

/// The time from `earlier` to `later`, zero when `earlier` is the later one
/// (as `Instant::duration_since` measures it).
pub open spec fn elapsed_since(later: u128, earlier: u128) -> nat {
    if later >= earlier {
        (later - earlier) as nat
    } else {
        0
    }
}

/// Whether output arrived within the busy window before `now`; times are
/// nanoseconds on one monotonic clock. Never busy without output; otherwise
/// busy exactly when the output is less than the window old.
pub fn recent_output_is_busy(last_output_at: Option<u128>, now: u128, heuristic_ms: u64) -> (r: bool)
    ensures
        r == (last_output_at matches Some(at) && elapsed_since(now, at) < busy_window_nanos(heuristic_ms)),
{
    let age = match last_output_at {
        Some(at) => Some(if now >= at { now - at } else { 0 }),
        None => None,
    };
    output_age_is_busy(age, heuristic_ms)
}

} // verus!

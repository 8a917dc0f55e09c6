use sherion::pty::busy::{output_age_is_busy, recent_output_is_busy};
use sherion::pty::foreground_command_running;

const MS: u128 = 1_000_000;
const NOW: u128 = 10_000 * MS;

#[test]
fn no_output_means_idle() {
    let now = NOW;
    assert!(!recent_output_is_busy(None, now, 500));
}

#[test]
fn recent_output_within_window_is_busy() {
    let now = NOW;
    let last = now - 100 * MS;
    assert!(recent_output_is_busy(Some(last), now, 500));
}

#[test]
fn output_outside_window_is_idle() {
    let now = NOW;
    let last = now - 600 * MS;
    assert!(!recent_output_is_busy(Some(last), now, 500));
}

#[test]
fn zero_heuristic_ms_clamps_to_one_millisecond() {
    let now = NOW;
    let last = now - 500_000;
    assert!(recent_output_is_busy(Some(last), now, 0));
    let older = now - 2 * MS;
    assert!(!recent_output_is_busy(Some(older), now, 0));
}

#[test]
fn boundary_at_exact_window_is_idle() {
    let now = NOW;
    let last = now - 500 * MS;
    assert!(!recent_output_is_busy(Some(last), now, 500));
}

#[test]
fn output_after_now_counts_as_just_now() {
    assert!(recent_output_is_busy(Some(NOW + 5 * MS), NOW, 1));
}

#[test]
fn output_age_window_is_strict() {
    assert!(output_age_is_busy(Some(499_999_999), 500));
    assert!(!output_age_is_busy(Some(500_000_000), 500));
    assert!(output_age_is_busy(Some(999_999), 0));
    assert!(!output_age_is_busy(Some(1_000_000), 0));
    assert!(!output_age_is_busy(None, 500));
}

#[test]
fn foreground_group_other_than_shell_is_busy() {
    assert!(foreground_command_running(4242, 100));
    assert!(!foreground_command_running(100, 100));
    assert!(!foreground_command_running(0, 100));
    assert!(!foreground_command_running(-1, 100));
}

use sherion::timers::{
    BellFlash, CursorBlink, ResizeDebounce, WindowClock, CURSOR_BLINK_INTERVAL_MS, PTY_RESIZE_DEBOUNCE_MS,
};

#[test]
fn resizes_wait_for_the_window_to_settle() {
    let mut d: ResizeDebounce<(usize, usize)> = ResizeDebounce::new();
    assert!(d.take_due(1_000).is_empty());
    d.schedule(vec![(80, 24)], 1_000);
    assert_eq!(d.deadline(), Some(1_000 + PTY_RESIZE_DEBOUNCE_MS));
    assert!(d.take_due(1_100).is_empty());
    d.schedule(vec![(100, 30), (50, 30)], 1_100);
    assert!(d.take_due(1_200).is_empty());
    assert_eq!(d.take_due(1_250), vec![(100, 30), (50, 30)]);
    assert_eq!(d.deadline(), None);
    assert!(d.take_due(5_000).is_empty());
}

#[test]
fn empty_schedule_keeps_the_old_due_time() {
    let mut d: ResizeDebounce<u8> = ResizeDebounce::new();
    d.schedule(vec![1], 0);
    d.schedule(vec![], 100);
    assert_eq!(d.deadline(), Some(150));
    assert!(d.take_due(150).is_empty());
    assert_eq!(d.deadline(), None);
}

#[test]
fn cursor_blinks_every_interval() {
    let mut c = CursorBlink::new();
    assert!(!c.tick(10_000));
    c.ensure_running(false, 0);
    assert_eq!(c.deadline, None);
    c.ensure_running(true, 0);
    assert_eq!(c.deadline, Some(CURSOR_BLINK_INTERVAL_MS));
    assert!(c.take_phase_changed());
    assert!(!c.take_phase_changed());
    assert!(!c.tick(100));
    assert!(c.tick(600));
    assert!(!c.visible);
    assert!(!c.cursor_drawn(true, true));
    assert!(c.cursor_drawn(true, false));
    assert!(!c.cursor_drawn(false, false));
    assert!(c.tick(600 + CURSOR_BLINK_INTERVAL_MS));
    assert!(c.visible);
    c.tick(2_000);
    c.reset(2_001);
    assert!(c.visible);
    assert_eq!(c.deadline, Some(2_001 + CURSOR_BLINK_INTERVAL_MS));
}

#[test]
fn bell_flash_lasts_its_duration() {
    let mut b = BellFlash::new();
    assert!(!b.active(0));
    b.ring(1_000);
    assert!(b.active(1_000));
    assert!(b.active(1_149));
    assert!(!b.active(1_150));
}

#[test]
fn window_wakes_for_the_first_timer_to_run_out() {
    let mut clock = WindowClock::new();
    assert_eq!(clock.wake(1_000, false, false), (1_250, false));
    clock.bell.ring(1_000);
    assert_eq!(clock.wake(1_050, true, false), (1_150, true));
    assert_eq!(clock.wake(1_200, false, false), (1_450, true));
    assert_eq!(clock.bell.until, None);
    assert_eq!(clock.wake(2_000, false, true), (2_250, false));
    assert_eq!(clock.blink.deadline, Some(2_530));
    assert_eq!(clock.wake(2_400, false, true), (2_530, false));
    assert_eq!(clock.wake(2_530, false, true), (2_780, true));
    assert!(!clock.blink.visible);
    assert_eq!(clock.blink.deadline, Some(3_060));
}

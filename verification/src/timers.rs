//! A window's timers, on a millisecond clock that the caller reads: PTY
//! resizes held back while the window is still changing size, the cursor
//! blink, and the visual bell flash.

use vstd::prelude::*;

verus! {

/// How long the window must keep one size before the PTYs are resized.
pub const PTY_RESIZE_DEBOUNCE_MS: u64 = 150;

/// How long the visual bell shows.
pub const BELL_FLASH_MS: u64 = 150;

/// How long the cursor stays in one blink phase.
pub const CURSOR_BLINK_INTERVAL_MS: u64 = 530;

/// How often a window looks at its tabs while a command runs in one.
pub const BUSY_POLL_INTERVAL_MS: u64 = 250;

/// How often a window looks at its tabs while they are idle.
pub const IDLE_POLL_INTERVAL_MS: u64 = 250;

/// Resize requests held back until the window has had one size for
/// `PTY_RESIZE_DEBOUNCE_MS`.
#[derive(Debug)]
pub struct ResizeDebounce<T> {
    pending: Vec<T>,
    deadline: Option<u64>,
}

/// The waiting requests and their due time after `requests` are scheduled
/// at `now` (see `ResizeDebounce::schedule`).
pub open spec fn scheduled<T>(waiting: (Seq<T>, Option<u64>), requests: Seq<T>, now: u64) -> (Seq<T>, Option<u64>) {
    (requests, if requests.len() > 0 {
        Some((now + PTY_RESIZE_DEBOUNCE_MS) as u64)
    } else {
        waiting.1
    })
}

/// What a look at the clock at `now` takes, and what waits after it (see
/// `ResizeDebounce::take_due`).
pub open spec fn taken_at<T>(waiting: (Seq<T>, Option<u64>), now: u64) -> (Seq<T>, (Seq<T>, Option<u64>)) {
    match waiting.1 {
        Some(d) if now >= d => (waiting.0, (Seq::empty(), None)),
        _ => (Seq::empty(), waiting),
    }
}

impl<T> ResizeDebounce<T> {
    /// The requests waiting.
    pub closed spec fn pending(self) -> Seq<T> {
        self.pending@
    }

    /// When they are due.
    pub closed spec fn due(self) -> Option<u64> {
        self.deadline
    }

    /// Nothing waiting.
    pub fn new() -> (r: Self)
        ensures
            r.pending() == Seq::<T>::empty(),
            r.due() is None,
    {
        ResizeDebounce { pending: Vec::new(), deadline: None }
    }

    /// When the waiting requests are due.
    pub fn deadline(&self) -> (r: Option<u64>)
        ensures
            r == self.due(),
    {
        self.deadline
    }

    /// Replaces the waiting requests with `requests` made at `now`; when
    /// there are any they fall due `PTY_RESIZE_DEBOUNCE_MS` later, else the
    /// time they were due stays.
    pub fn schedule(&mut self, requests: Vec<T>, now: u64)
        requires
            now <= u64::MAX - PTY_RESIZE_DEBOUNCE_MS,
        ensures
            (final(self).pending(), final(self).due()) == scheduled(
                (old(self).pending(), old(self).due()),
                requests@,
                now,
            ),
    {
        let any = requests.len() > 0;
        self.pending = requests;
        if any {
            self.deadline = Some(now + PTY_RESIZE_DEBOUNCE_MS);
        }
    }

    /// The requests to carry out at `now`: all of them, in order, once they
    /// are due (and nothing waits after that); none before.
    pub fn take_due(&mut self, now: u64) -> (r: Vec<T>)
        ensures
            (r@, (final(self).pending(), final(self).due())) == taken_at(
                (old(self).pending(), old(self).due()),
                now,
            ),
    {
        match self.deadline {
            Some(d) => {
                if now < d {
                    return Vec::new();
                }
                let mut taken: Vec<T> = Vec::new();
                std::mem::swap(&mut taken, &mut self.pending);
                self.deadline = None;
                taken
            },
            None => Vec::new(),
        }
    }
}

/// Resize requests scheduled at `now` are carried out, all of them and in
/// order, by a look at the clock `PTY_RESIZE_DEBOUNCE_MS` later or after,
/// and not by one before; nothing waits once they are taken.
pub proof fn lemma_resize_waits_for_the_debounce<T>(
    waiting: (Seq<T>, Option<u64>),
    requests: Seq<T>,
    now: u64,
    later: u64,
)
    requires
        requests.len() > 0,
        now <= u64::MAX - PTY_RESIZE_DEBOUNCE_MS,
    ensures
        later >= now + PTY_RESIZE_DEBOUNCE_MS ==> taken_at(scheduled(waiting, requests, now), later)
            == (requests, (Seq::<T>::empty(), None::<u64>)),
        later < now + PTY_RESIZE_DEBOUNCE_MS ==> taken_at(scheduled(waiting, requests, now), later)
            == (Seq::<T>::empty(), scheduled(waiting, requests, now)),
{
}

/// The cursor's blink phase and when it next changes.
#[derive(Debug)]
pub struct CursorBlink {
    pub visible: bool,
    pub deadline: Option<u64>,
    /// The phase changed since the frame last drew.
    pub phase_changed: bool,
}

/// The blink state after a look at the clock at `now`, and whether the
/// phase changed: once the phase has run out the cursor flips between shown
/// and hidden and a new phase starts.
pub open spec fn blink_tick(c: CursorBlink, now: u64) -> (CursorBlink, bool) {
    match c.deadline {
        Some(d) if now >= d => (CursorBlink {
            visible: !c.visible,
            deadline: Some((now + CURSOR_BLINK_INTERVAL_MS) as u64),
            phase_changed: true,
        }, true),
        _ => (c, false),
    }
}

impl CursorBlink {
    /// A shown cursor, no blink timer yet.
    pub fn new() -> (r: Self)
        ensures
            r.visible && r.deadline is None && !r.phase_changed,
    {
        CursorBlink { visible: true, deadline: None, phase_changed: false }
    }

    /// Shows the cursor and starts a new phase at `now` (after typing, or
    /// when blinking starts).
    pub fn reset(&mut self, now: u64)
        requires
            now <= u64::MAX - CURSOR_BLINK_INTERVAL_MS,
        ensures
            final(self).visible,
            final(self).deadline == Some((now + CURSOR_BLINK_INTERVAL_MS) as u64),
            final(self).phase_changed,
    {
        self.visible = true;
        self.deadline = Some(now + CURSOR_BLINK_INTERVAL_MS);
        self.phase_changed = true;
    }

    /// At `now`: when the phase has run out, the cursor flips between shown
    /// and hidden and a new phase starts; `true` when that happened and the
    /// window has to draw again.
    pub fn tick(&mut self, now: u64) -> (r: bool)
        requires
            now <= u64::MAX - CURSOR_BLINK_INTERVAL_MS,
        ensures
            (*final(self), r) == blink_tick(*old(self), now),
    {
        match self.deadline {
            Some(d) => {
                if now < d {
                    return false;
                }
                self.visible = !self.visible;
                self.deadline = Some(now + CURSOR_BLINK_INTERVAL_MS);
                self.phase_changed = true;
                true
            },
            None => false,
        }
    }

    /// Starts the blink timer at `now` when something blinks (`needed`) and
    /// no timer runs yet.
    pub fn ensure_running(&mut self, needed: bool, now: u64)
        requires
            now <= u64::MAX - CURSOR_BLINK_INTERVAL_MS,
        ensures
            if old(self).deadline is None && needed {
                final(self).visible && final(self).deadline == Some((now + CURSOR_BLINK_INTERVAL_MS) as u64)
                    && final(self).phase_changed
            } else {
                *final(self) == *old(self)
            },
    {
        if self.deadline.is_some() {
            return;
        }
        if needed {
            self.reset(now);
        }
    }

    /// Whether the phase changed since the last call.
    pub fn take_phase_changed(&mut self) -> (r: bool)
        ensures
            r == old(self).phase_changed,
            !final(self).phase_changed,
            final(self).visible == old(self).visible,
            final(self).deadline == old(self).deadline,
    {
        let changed = self.phase_changed;
        self.phase_changed = false;
        changed
    }

    /// Whether the cursor is drawn: the terminal shows it, and a blinking
    /// cursor only in its shown phase.
    pub fn cursor_drawn(&self, show_cursor: bool, blinking: bool) -> (r: bool)
        ensures
            r == (show_cursor && (!blinking || self.visible)),
    {
        if !show_cursor {
            return false;
        }
        if blinking {
            self.visible
        } else {
            true
        }
    }
}

/// Two phases that run out bring the cursor back to the phase it was in;
/// each starts a phase that lasts `CURSOR_BLINK_INTERVAL_MS`.
pub proof fn lemma_two_blinks_restore_the_phase(c: CursorBlink, t1: u64, t2: u64)
    requires
        c.deadline matches Some(d) && t1 >= d,
        t1 <= u64::MAX - CURSOR_BLINK_INTERVAL_MS,
        t2 >= t1 + CURSOR_BLINK_INTERVAL_MS,
    ensures
        blink_tick(c, t1).1,
        blink_tick(blink_tick(c, t1).0, t2).1,
        blink_tick(blink_tick(c, t1).0, t2).0.visible == c.visible,
{
}

/// The visual bell: until when its flash shows.
#[derive(Debug)]
pub struct BellFlash {
    pub until: Option<u64>,
}

impl BellFlash {
    pub fn new() -> (r: Self)
        ensures
            r.until is None,
    {
        BellFlash { until: None }
    }

    /// The bell rang at `now`: the flash shows for `BELL_FLASH_MS`.
    pub fn ring(&mut self, now: u64)
        requires
            now <= u64::MAX - BELL_FLASH_MS,
        ensures
            final(self).until == Some((now + BELL_FLASH_MS) as u64),
    {
        self.until = Some(now + BELL_FLASH_MS);
    }

    /// Whether the flash shows at `now`.
    pub fn active(&self, now: u64) -> (r: bool)
        ensures
            r == (self.until matches Some(u) && now < u),
    {
        match self.until {
            Some(u) => now < u,
            None => false,
        }
    }
}

/// A window's clock-driven state: its bell flash and its cursor blink.
#[derive(Debug)]
pub struct WindowClock {
    pub bell: BellFlash,
    pub blink: CursorBlink,
}

pub open spec fn earlier(a: u64, b: u64) -> u64 {
    if a <= b {
        a
    } else {
        b
    }
}

/// One look at a window's clock at `now`: the new state, when the window
/// must look again, and whether it has to draw. The window looks again after
/// the poll interval (`busy`: a command runs in one of its tabs) or when the
/// bell flash or the blink phase runs out, whichever is first. A flash that
/// ran out is cleared, a blink phase that ran out flips the cursor; both
/// draw. A cursor that should blink (`blink_needed`) and has no timer gets
/// one.
pub open spec fn window_wake(c: WindowClock, now: u64, busy: bool, blink_needed: bool) -> (WindowClock, u64, bool) {
    let poll = (now + if busy {
        BUSY_POLL_INTERVAL_MS
    } else {
        IDLE_POLL_INTERVAL_MS
    }) as u64;
    let (bell, wake1, redraw1) = match c.bell.until {
        Some(u) => if now < u {
            (c.bell, earlier(poll, u), true)
        } else {
            (BellFlash { until: None }, poll, true)
        },
        None => (c.bell, poll, false),
    };
    let (blink, wake2, redraw2) = match c.blink.deadline {
        Some(d) => if now < d {
            (c.blink, earlier(wake1, d), false)
        } else {
            (blink_tick(c.blink, now).0, wake1, true)
        },
        None => if blink_needed {
            (CursorBlink {
                visible: true,
                deadline: Some((now + CURSOR_BLINK_INTERVAL_MS) as u64),
                phase_changed: true,
            }, wake1, false)
        } else {
            (c.blink, wake1, false)
        },
    };
    let wake3 = match blink.deadline {
        Some(d) => earlier(wake2, d),
        None => wake2,
    };
    (WindowClock { bell, blink }, wake3, redraw1 || redraw2)
}

impl WindowClock {
    pub fn new() -> (r: Self)
        ensures
            r.bell.until is None,
            r.blink.visible && r.blink.deadline is None && !r.blink.phase_changed,
    {
        WindowClock { bell: BellFlash::new(), blink: CursorBlink::new() }
    }

    /// Looks at the clock at `now` (see `window_wake`); returns when to look
    /// again and whether to draw. The window never sleeps past its poll
    /// interval or a running timer, and never asks to be woken in the past.
    pub fn wake(&mut self, now: u64, busy: bool, blink_needed: bool) -> (r: (u64, bool))
        requires
            now <= u64::MAX - CURSOR_BLINK_INTERVAL_MS,
        ensures
            (*final(self), r.0, r.1) == window_wake(*old(self), now, busy, blink_needed),
            now < r.0 <= now + BUSY_POLL_INTERVAL_MS,
            final(self).bell.until matches Some(u) ==> r.0 <= u,
            final(self).blink.deadline matches Some(d) ==> r.0 <= d,
    {
        let poll = now + if busy { BUSY_POLL_INTERVAL_MS } else { IDLE_POLL_INTERVAL_MS };
        let mut wake = poll;
        let mut redraw = false;
        match self.bell.until {
            Some(u) => {
                if now < u {
                    if u < wake {
                        wake = u;
                    }
                } else {
                    self.bell.until = None;
                }
                redraw = true;
            },
            None => {},
        }
        match self.blink.deadline {
            Some(d) => {
                if now < d {
                    if d < wake {
                        wake = d;
                    }
                } else {
                    self.blink.tick(now);
                    redraw = true;
                }
            },
            None => {
                self.blink.ensure_running(blink_needed, now);
            },
        }
        match self.blink.deadline {
            Some(d) => {
                if d < wake {
                    wake = d;
                }
            },
            None => {},
        }
        (wake, redraw)
    }
}

} // verus!

//! Where the window sends a mouse button, a wheel step and a pointer move.
//! The window's hit tests (in window coordinates) are made by the caller and
//! arrive here as plain answers; this module holds the order in which they
//! are consulted and what each case does.

use vstd::prelude::*;

use crate::keys::{mode_has, ElementState, ModifiersState, TermMode, MOUSE_DRAG, MOUSE_MOTION};
use crate::mouse::MouseButton;

verus! {

/// Presses at most this far apart (and near each other) count as one
/// double or triple click.
pub const DOUBLE_CLICK_INTERVAL_MS: u64 = 300;

/// What lies under the pointer, as the window's hit tests found it.
#[derive(Clone, Copy, Debug, PartialEq, Eq, Structural)]
pub struct PointerHits {
    /// A window edge that resizes a borderless window.
    pub resize_edge: bool,
    /// The divider between the tab strip and the terminal.
    pub sidebar_divider: bool,
    /// A divider between split panes.
    pub split_divider: bool,
    pub tab_strip: bool,
    pub title_bar: bool,
    pub terminal: bool,
    /// The scrollbar track of a pane that has scrollback.
    pub scrollbar: bool,
    /// A pane of the terminal area.
    pub pane: bool,
    /// A URL that may be opened.
    pub link: bool,
    /// Within a few pixels of the previous counted click.
    pub near_last_click: bool,
}

/// How a selection grows.
#[derive(Clone, Copy, Debug, PartialEq, Eq, Structural)]
pub enum SelectionKind {
    /// Cell by cell (one click).
    Simple,
    /// A rectangle (Alt held).
    Block,
    /// Word by word (double click).
    Semantic,
    /// Line by line (triple click).
    Lines,
}

/// One thing the window does for a mouse button event, in order.
#[derive(Clone, Copy, Debug, PartialEq, Eq, Structural)]
pub enum MouseRoute {
    /// Left button released: sidebar, opacity-slider and divider drags end.
    EndDrags,
    /// Left button released over the tab strip: a tab drag ends there.
    FinishTabDrag,
    /// The window starts a resize from its edge.
    StartResizeDrag,
    /// The menu, the tab strip or the title bar handles the press.
    ChromeClick,
    /// The search overlay takes the click (closing on its close button or
    /// outside its panel).
    SearchOverlayClick,
    StartSidebarDrag,
    StartSplitDrag,
    /// The pane scrolls to where its scrollbar was clicked.
    ScrollbarClick,
    /// The event is reported to the program in the pane.
    Report,
    /// Right click: the clipboard is pasted.
    PasteClipboard,
    /// Middle click: the primary selection is pasted.
    PastePrimary,
    /// Ctrl+click on a link: it opens.
    OpenUrl,
    /// The pane under the pointer takes the focus.
    FocusPane,
    /// The press was counted; the caller keeps its position for the next.
    ClickCounted,
    /// A selection starts at the pointer; double and triple clicks copy it
    /// at once.
    StartSelection(SelectionKind),
    /// A drag selection ended: it is copied.
    CopySelection,
}

/// The presses counted so far and when the last one came (milliseconds).
#[derive(Clone, Copy, Debug, PartialEq, Eq, Structural)]
pub struct ClickCounter {
    pub count: u32,
    pub last_at: u64,
}

/// The time from `earlier` to `later`, zero when `earlier` is the later one.
pub open spec fn since(later: u64, earlier: u64) -> nat {
    if later >= earlier {
        (later - earlier) as nat
    } else {
        0
    }
}

/// The counter after a press at `now`: one more when it follows the last
/// within `DOUBLE_CLICK_INTERVAL_MS` and near it, else a first click.
pub open spec fn click_step(c: ClickCounter, now: u64, near_last: bool) -> ClickCounter {
    ClickCounter {
        count: if since(now, c.last_at) <= DOUBLE_CLICK_INTERVAL_MS && near_last {
            (c.count + 1) as u32
        } else {
            1
        },
        last_at: now,
    }
}

/// The selection a counted click starts: a word for the second, lines from
/// the third on, else cells.
pub open spec fn selection_for(count: u32) -> SelectionKind {
    if count == 2 {
        SelectionKind::Semantic
    } else if count >= 3 {
        SelectionKind::Lines
    } else {
        SelectionKind::Simple
    }
}

/// What a mouse button event does, whether a selection is being dragged
/// afterwards, and the click counter afterwards. A left release first ends
/// drags. Then the first that applies: a press of the left button on a
/// resize edge; anything while the menu is open (presses go to the menu);
/// a left press while the search overlay is open; a left press on the
/// sidebar divider or a split divider; the tab strip or title bar (presses
/// go to the chrome); nothing outside the terminal; a left press on a
/// scrollbar; a report to the program when it asked for them (`reporting`);
/// right-click paste; middle-click primary paste; for the left button:
/// Ctrl+click opens a link, else the pane is focused and a selection starts
/// (Alt: a block; else by the click count), and a release copies a dragged
/// selection.
pub open spec fn mouse_route(
    button: MouseButton,
    state: ElementState,
    hits: PointerHits,
    menu_open: bool,
    search_open: bool,
    modifiers: ModifiersState,
    reporting: bool,
    now: u64,
    clicks: ClickCounter,
    selecting: bool,
) -> (Seq<MouseRoute>, bool, ClickCounter) {
    let left = button == MouseButton::Left;
    let press = state == ElementState::Pressed;
    let pre: Seq<MouseRoute> = if left && !press {
        if hits.tab_strip {
            seq![MouseRoute::EndDrags, MouseRoute::FinishTabDrag]
        } else {
            seq![MouseRoute::EndDrags]
        }
    } else {
        Seq::empty()
    };
    let none: Seq<MouseRoute> = Seq::empty();
    let (rest, sel, c) = if press && left && hits.resize_edge {
        (seq![MouseRoute::StartResizeDrag], selecting, clicks)
    } else if menu_open {
        (if press { seq![MouseRoute::ChromeClick] } else { none }, selecting, clicks)
    } else if search_open && press && left {
        (seq![MouseRoute::SearchOverlayClick], selecting, clicks)
    } else if press && left && hits.sidebar_divider {
        (seq![MouseRoute::StartSidebarDrag], selecting, clicks)
    } else if press && left && hits.split_divider {
        (seq![MouseRoute::StartSplitDrag], selecting, clicks)
    } else if hits.tab_strip || hits.title_bar {
        (if press { seq![MouseRoute::ChromeClick] } else { none }, selecting, clicks)
    } else if !hits.terminal {
        (none, selecting, clicks)
    } else if press && left && hits.scrollbar {
        (seq![MouseRoute::ScrollbarClick], selecting, clicks)
    } else if reporting {
        (seq![MouseRoute::Report], selecting, clicks)
    } else if button == MouseButton::Right && press {
        (seq![MouseRoute::PasteClipboard], selecting, clicks)
    } else if button == MouseButton::Middle && press {
        (seq![MouseRoute::PastePrimary], selecting, clicks)
    } else if !left {
        (none, selecting, clicks)
    } else if press {
        if modifiers.control && hits.link {
            (seq![MouseRoute::OpenUrl], selecting, clicks)
        } else {
            let focus: Seq<MouseRoute> = if hits.pane { seq![MouseRoute::FocusPane] } else { none };
            if modifiers.alt {
                (focus.push(MouseRoute::StartSelection(SelectionKind::Block)), true, clicks)
            } else {
                let next = click_step(clicks, now, hits.near_last_click);
                let kind = selection_for(next.count);
                (focus.push(MouseRoute::ClickCounted).push(MouseRoute::StartSelection(kind)), kind
                    == SelectionKind::Simple, next)
            }
        }
    } else {
        (if selecting { seq![MouseRoute::CopySelection] } else { none }, false, clicks)
    };
    (pre + rest, sel, c)
}

fn is_left(b: MouseButton) -> (r: bool)
    ensures
        r == (b == MouseButton::Left),
{
    match b {
        MouseButton::Left => true,
        _ => false,
    }
}

fn is_right(b: MouseButton) -> (r: bool)
    ensures
        r == (b == MouseButton::Right),
{
    match b {
        MouseButton::Right => true,
        _ => false,
    }
}

fn is_middle(b: MouseButton) -> (r: bool)
    ensures
        r == (b == MouseButton::Middle),
{
    match b {
        MouseButton::Middle => true,
        _ => false,
    }
}

impl ClickCounter {
    /// No click yet; the counter starts at `now`.
    pub fn new(now: u64) -> (r: Self)
        ensures
            r.count == 0,
            r.last_at == now,
    {
        ClickCounter { count: 0, last_at: now }
    }
}

/// Routes a mouse button event (see `mouse_route`); `selecting` is whether a
/// selection is being dragged, and the result's second part is its new
/// value.
pub fn route_mouse_button(
    button: MouseButton,
    state: ElementState,
    hits: PointerHits,
    menu_open: bool,
    search_open: bool,
    modifiers: ModifiersState,
    reporting: bool,
    now: u64,
    clicks: &mut ClickCounter,
    selecting: bool,
) -> (r: (Vec<MouseRoute>, bool))
    requires
        old(clicks).count < u32::MAX,
    ensures
        (r.0@, r.1, *final(clicks)) == mouse_route(
            button,
            state,
            hits,
            menu_open,
            search_open,
            modifiers,
            reporting,
            now,
            *old(clicks),
            selecting,
        ),
{
    let left = is_left(button);
    let press = state == ElementState::Pressed;
    let mut out: Vec<MouseRoute> = Vec::new();
    if left && !press {
        out.push(MouseRoute::EndDrags);
        if hits.tab_strip {
            out.push(MouseRoute::FinishTabDrag);
        }
    }
    let ghost pre = out@;
    let mut sel = selecting;
    if press && left && hits.resize_edge {
        out.push(MouseRoute::StartResizeDrag);
    } else if menu_open {
        if press {
            out.push(MouseRoute::ChromeClick);
        }
    } else if search_open && press && left {
        out.push(MouseRoute::SearchOverlayClick);
    } else if press && left && hits.sidebar_divider {
        out.push(MouseRoute::StartSidebarDrag);
    } else if press && left && hits.split_divider {
        out.push(MouseRoute::StartSplitDrag);
    } else if hits.tab_strip || hits.title_bar {
        if press {
            out.push(MouseRoute::ChromeClick);
        }
    } else if !hits.terminal {
    } else if press && left && hits.scrollbar {
        out.push(MouseRoute::ScrollbarClick);
    } else if reporting {
        out.push(MouseRoute::Report);
    } else if is_right(button) && press {
        out.push(MouseRoute::PasteClipboard);
    } else if is_middle(button) && press {
        out.push(MouseRoute::PastePrimary);
    } else if !left {
    } else if press {
        if modifiers.control && hits.link {
            out.push(MouseRoute::OpenUrl);
        } else {
            if hits.pane {
                out.push(MouseRoute::FocusPane);
            }
            if modifiers.alt {
                out.push(MouseRoute::StartSelection(SelectionKind::Block));
                sel = true;
            } else {
                let gap = if now >= clicks.last_at { now - clicks.last_at } else { 0 };
                let count = if gap <= DOUBLE_CLICK_INTERVAL_MS && hits.near_last_click {
                    clicks.count + 1
                } else {
                    1
                };
                *clicks = ClickCounter { count, last_at: now };
                let kind = if count == 2 {
                    SelectionKind::Semantic
                } else if count >= 3 {
                    SelectionKind::Lines
                } else {
                    SelectionKind::Simple
                };
                out.push(MouseRoute::ClickCounted);
                out.push(MouseRoute::StartSelection(kind));
                sel = count < 2;
            }
        }
    } else {
        if selecting {
            out.push(MouseRoute::CopySelection);
        }
        sel = false;
    }
    proof {
        let expected = mouse_route(button, state, hits, menu_open, search_open, modifiers, reporting, now,
            *old(clicks), selecting);
        assert(out@ =~= expected.0);
    }
    (out, sel)
}

/// What a wheel step does.
#[derive(Clone, Copy, Debug, PartialEq, Eq, Structural)]
pub enum WheelRoute {
    /// No whole line, or outside the terminal and the tab strip.
    Ignore,
    ScrollTabStrip,
    /// Ctrl+wheel up: the font grows.
    ZoomIn,
    /// Ctrl+wheel down: the font shrinks.
    ZoomOut,
    /// The step is reported to the program in the pane.
    Report,
    /// The pane's view scrolls through its history.
    ScrollDisplay,
}

/// A wheel step of `lines` (positive: up): nothing for no whole line; the
/// tab strip scrolls under the pointer; nothing elsewhere outside the
/// terminal; Ctrl zooms; a program that asked for reports gets it
/// (`reporting`); else the view scrolls.
pub open spec fn wheel_route(lines: i32, in_tab_strip: bool, in_terminal: bool, ctrl: bool, reporting: bool) -> WheelRoute {
    if lines == 0 {
        WheelRoute::Ignore
    } else if in_tab_strip {
        WheelRoute::ScrollTabStrip
    } else if !in_terminal {
        WheelRoute::Ignore
    } else if ctrl {
        if lines > 0 {
            WheelRoute::ZoomIn
        } else {
            WheelRoute::ZoomOut
        }
    } else if reporting {
        WheelRoute::Report
    } else {
        WheelRoute::ScrollDisplay
    }
}

/// Routes a wheel step (see `wheel_route`).
pub fn route_wheel(lines: i32, in_tab_strip: bool, in_terminal: bool, ctrl: bool, reporting: bool) -> (r: WheelRoute)
    ensures
        r == wheel_route(lines, in_tab_strip, in_terminal, ctrl, reporting),
{
    if lines == 0 {
        WheelRoute::Ignore
    } else if in_tab_strip {
        WheelRoute::ScrollTabStrip
    } else if !in_terminal {
        WheelRoute::Ignore
    } else if ctrl {
        if lines > 0 {
            WheelRoute::ZoomIn
        } else {
            WheelRoute::ZoomOut
        }
    } else if reporting {
        WheelRoute::Report
    } else {
        WheelRoute::ScrollDisplay
    }
}

/// A drag in progress when the pointer moves.
#[derive(Clone, Copy, Debug, PartialEq, Eq, Structural)]
pub enum PointerDrag {
    NoDrag,
    /// The menu's opacity slider.
    Slider,
    /// The divider between the tab strip and the terminal.
    Sidebar,
    /// A divider between split panes.
    Split,
}

/// What a pointer move does.
#[derive(Clone, Copy, Debug, PartialEq, Eq, Structural)]
pub enum MotionRoute {
    /// A drag follows the pointer.
    Drag(PointerDrag),
    /// No drag: the pointer shows a hand over a link while Ctrl is held, the
    /// terminal is drawn again while Ctrl is held (link highlight), the move
    /// is reported to the program, or a dragged selection follows.
    Hover { link_cursor: bool, redraw: bool, report: bool, extend_selection: bool },
}

/// Whether a pane in `mode` wants pointer moves reported: all moves
/// (mode 1003), or moves with a button held (mode 1002).
pub open spec fn motion_wanted(mode: TermMode, button_held: bool) -> bool {
    mode_has(mode.bits, MOUSE_MOTION) || (mode_has(mode.bits, MOUSE_DRAG) && button_held)
}

/// What a pointer move does: a drag in progress follows it; otherwise see
/// `MotionRoute::Hover`. `reporting` is whether mouse reports reach the pane
/// under the pointer at all (see `mouse_reporting_applies`), `mode` that
/// pane's mode.
pub open spec fn motion_route(
    drag: PointerDrag,
    hits: PointerHits,
    ctrl: bool,
    reporting: bool,
    mode: TermMode,
    button_held: bool,
    selecting: bool,
) -> MotionRoute {
    if drag != PointerDrag::NoDrag {
        MotionRoute::Drag(drag)
    } else {
        let report = reporting && motion_wanted(mode, button_held);
        MotionRoute::Hover {
            link_cursor: ctrl && hits.link,
            redraw: ctrl && hits.terminal,
            report,
            extend_selection: !report && selecting && hits.terminal,
        }
    }
}

/// Routes a pointer move (see `motion_route`).
pub fn route_pointer_motion(
    drag: PointerDrag,
    hits: PointerHits,
    ctrl: bool,
    reporting: bool,
    mode: TermMode,
    button_held: bool,
    selecting: bool,
) -> (r: MotionRoute)
    ensures
        r == motion_route(drag, hits, ctrl, reporting, mode, button_held, selecting),
{
    match drag {
        PointerDrag::NoDrag => {
            let report = reporting && (mode.contains(MOUSE_MOTION) || (mode.contains(MOUSE_DRAG) && button_held));
            MotionRoute::Hover {
                link_cursor: ctrl && hits.link,
                redraw: ctrl && hits.terminal,
                report,
                extend_selection: !report && selecting && hits.terminal,
            }
        },
        _ => MotionRoute::Drag(drag),
    }
}

/// A press of the left button that goes to the terminal's selection: nothing
/// of the chrome, a divider or a scrollbar is under it, no link is opened and
/// no block selection is asked for.
pub open spec fn plain_selection_press(hits: PointerHits, modifiers: ModifiersState) -> bool {
    &&& hits.terminal
    &&& !hits.resize_edge && !hits.sidebar_divider && !hits.split_divider
    &&& !hits.tab_strip && !hits.title_bar && !hits.scrollbar
    &&& !modifiers.alt
    &&& !(modifiers.control && hits.link)
}

/// Three such presses near each other, each within the double-click interval
/// of the one before and the first not, start a cell selection, then a word
/// selection, then a line selection.
pub proof fn lemma_click_count_selects_cell_word_line(
    hits: PointerHits,
    modifiers: ModifiersState,
    clicks: ClickCounter,
    selecting: bool,
    t1: u64,
    t2: u64,
    t3: u64,
)
    requires
        plain_selection_press(hits, modifiers),
        hits.near_last_click,
        since(t1, clicks.last_at) > DOUBLE_CLICK_INTERVAL_MS,
        t1 <= t2 <= t1 + DOUBLE_CLICK_INTERVAL_MS,
        t2 <= t3 <= t2 + DOUBLE_CLICK_INTERVAL_MS,
    ensures
        ({
            let first = mouse_route(
                MouseButton::Left, ElementState::Pressed, hits, false, false, modifiers, false, t1, clicks, selecting,
            );
            let second = mouse_route(
                MouseButton::Left, ElementState::Pressed, hits, false, false, modifiers, false, t2, first.2, first.1,
            );
            let third = mouse_route(
                MouseButton::Left, ElementState::Pressed, hits, false, false, modifiers, false, t3, second.2, second.1,
            );
            &&& first.0.last() == MouseRoute::StartSelection(SelectionKind::Simple)
            &&& second.0.last() == MouseRoute::StartSelection(SelectionKind::Semantic)
            &&& third.0.last() == MouseRoute::StartSelection(SelectionKind::Lines)
            &&& third.2.count == 3
        }),
{
}

} // verus!

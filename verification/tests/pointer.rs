use sherion::keys::{ElementState, ModifiersState, TermMode, MOUSE_DRAG, MOUSE_MOTION};
use sherion::mouse::MouseButton;
use sherion::pointer::{
    route_mouse_button, route_pointer_motion, route_wheel, ClickCounter, MotionRoute, MouseRoute, PointerDrag,
    PointerHits, SelectionKind, WheelRoute,
};

fn in_terminal() -> PointerHits {
    PointerHits {
        resize_edge: false,
        sidebar_divider: false,
        split_divider: false,
        tab_strip: false,
        title_bar: false,
        terminal: true,
        scrollbar: false,
        pane: true,
        link: false,
        near_last_click: true,
    }
}

fn none() -> ModifiersState {
    ModifiersState::empty()
}

fn alt() -> ModifiersState {
    ModifiersState { shift: false, control: false, alt: true, super_key: false }
}

fn press(button: MouseButton, hits: PointerHits, m: ModifiersState, now: u64, c: &mut ClickCounter) -> (Vec<MouseRoute>, bool) {
    route_mouse_button(button, ElementState::Pressed, hits, false, false, m, false, now, c, false)
}

#[test]
fn single_double_and_triple_clicks_select_cells_words_and_lines() {
    let mut c = ClickCounter::new(0);
    let hits = in_terminal();
    let (r, sel) = press(MouseButton::Left, hits, none(), 1_000, &mut c);
    assert_eq!(r, vec![MouseRoute::FocusPane, MouseRoute::ClickCounted, MouseRoute::StartSelection(SelectionKind::Simple)]);
    assert!(sel);
    let (r, sel) = press(MouseButton::Left, hits, none(), 1_200, &mut c);
    assert_eq!(r[2], MouseRoute::StartSelection(SelectionKind::Semantic));
    assert!(!sel);
    let (r, _) = press(MouseButton::Left, hits, none(), 1_450, &mut c);
    assert_eq!(r[2], MouseRoute::StartSelection(SelectionKind::Lines));
    assert_eq!(c.count, 3);
    let (r, _) = press(MouseButton::Left, hits, none(), 1_800, &mut c);
    assert_eq!(r[2], MouseRoute::StartSelection(SelectionKind::Simple));
    let far = PointerHits { near_last_click: false, ..hits };
    let (r, _) = press(MouseButton::Left, far, none(), 1_900, &mut c);
    assert_eq!(r[2], MouseRoute::StartSelection(SelectionKind::Simple));
}

#[test]
fn alt_drag_makes_a_block_and_release_copies() {
    let mut c = ClickCounter::new(0);
    let (r, sel) = press(MouseButton::Left, in_terminal(), alt(), 10, &mut c);
    assert_eq!(r, vec![MouseRoute::FocusPane, MouseRoute::StartSelection(SelectionKind::Block)]);
    assert!(sel);
    assert_eq!(c.count, 0);
    let (r, sel) =
        route_mouse_button(MouseButton::Left, ElementState::Released, in_terminal(), false, false, none(), false, 20, &mut c, true);
    assert_eq!(r, vec![MouseRoute::EndDrags, MouseRoute::CopySelection]);
    assert!(!sel);
}

#[test]
fn right_and_middle_click_paste_ctrl_click_opens_links() {
    let mut c = ClickCounter::new(0);
    assert_eq!(press(MouseButton::Right, in_terminal(), none(), 0, &mut c).0, vec![MouseRoute::PasteClipboard]);
    assert_eq!(press(MouseButton::Middle, in_terminal(), none(), 0, &mut c).0, vec![MouseRoute::PastePrimary]);
    let link = PointerHits { link: true, ..in_terminal() };
    assert_eq!(press(MouseButton::Left, link, ModifiersState::control(), 0, &mut c).0, vec![MouseRoute::OpenUrl]);
    assert_ne!(press(MouseButton::Left, link, none(), 0, &mut c).0, vec![MouseRoute::OpenUrl]);
}

#[test]
fn chrome_dividers_and_reports_come_first() {
    let mut c = ClickCounter::new(0);
    let edge = PointerHits { resize_edge: true, ..in_terminal() };
    assert_eq!(press(MouseButton::Left, edge, none(), 0, &mut c).0, vec![MouseRoute::StartResizeDrag]);
    let r = route_mouse_button(MouseButton::Right, ElementState::Pressed, in_terminal(), true, false, none(), true, 0, &mut c, false);
    assert_eq!(r.0, vec![MouseRoute::ChromeClick]);
    let r = route_mouse_button(MouseButton::Left, ElementState::Pressed, in_terminal(), false, true, none(), true, 0, &mut c, false);
    assert_eq!(r.0, vec![MouseRoute::SearchOverlayClick]);
    let strip = PointerHits { tab_strip: true, terminal: false, ..in_terminal() };
    assert_eq!(press(MouseButton::Left, strip, none(), 0, &mut c).0, vec![MouseRoute::ChromeClick]);
    let r = route_mouse_button(MouseButton::Left, ElementState::Released, strip, false, false, none(), false, 0, &mut c, false);
    assert_eq!(r.0, vec![MouseRoute::EndDrags, MouseRoute::FinishTabDrag]);
    let bar = PointerHits { scrollbar: true, ..in_terminal() };
    assert_eq!(press(MouseButton::Left, bar, none(), 0, &mut c).0, vec![MouseRoute::ScrollbarClick]);
    let r = route_mouse_button(MouseButton::Right, ElementState::Pressed, in_terminal(), false, false, none(), true, 0, &mut c, false);
    assert_eq!(r.0, vec![MouseRoute::Report]);
    let outside = PointerHits { terminal: false, ..in_terminal() };
    assert!(press(MouseButton::Left, outside, none(), 0, &mut c).0.is_empty());
    assert_eq!(c.count, 0);
}

#[test]
fn wheel_routes() {
    assert_eq!(route_wheel(0, true, true, false, false), WheelRoute::Ignore);
    assert_eq!(route_wheel(3, true, false, true, true), WheelRoute::ScrollTabStrip);
    assert_eq!(route_wheel(3, false, false, false, false), WheelRoute::Ignore);
    assert_eq!(route_wheel(1, false, true, true, true), WheelRoute::ZoomIn);
    assert_eq!(route_wheel(-1, false, true, true, false), WheelRoute::ZoomOut);
    assert_eq!(route_wheel(-2, false, true, false, true), WheelRoute::Report);
    assert_eq!(route_wheel(-2, false, true, false, false), WheelRoute::ScrollDisplay);
}

#[test]
fn motion_routes() {
    let hits = PointerHits { link: true, ..in_terminal() };
    assert_eq!(
        route_pointer_motion(PointerDrag::Split, hits, true, true, TermMode { bits: MOUSE_MOTION }, false, true),
        MotionRoute::Drag(PointerDrag::Split)
    );
    assert_eq!(
        route_pointer_motion(PointerDrag::NoDrag, hits, true, true, TermMode { bits: MOUSE_DRAG }, false, true),
        MotionRoute::Hover { link_cursor: true, redraw: true, report: false, extend_selection: true }
    );
    assert_eq!(
        route_pointer_motion(PointerDrag::NoDrag, hits, false, true, TermMode { bits: MOUSE_DRAG }, true, true),
        MotionRoute::Hover { link_cursor: false, redraw: false, report: true, extend_selection: false }
    );
}

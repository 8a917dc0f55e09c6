use sherion::keys::{MOUSE_REPORT_CLICK, SGR_MOUSE};
use sherion::mouse::mouse_reporting_applies;
use sherion::keys::{ElementState, ModifiersState, TermMode};
use sherion::mouse::{
    button_code, encode_mouse_report, motion_button, mouse_mode_active, wheel_button, GridPoint, MouseButton,
};

fn mods(shift: bool, control: bool, alt: bool) -> ModifiersState {
    ModifiersState { shift, control, alt, super_key: false }
}

#[test]
fn wheel_and_button_codes() {
    assert_eq!(wheel_button(3), 64);
    assert_eq!(wheel_button(0), 65);
    assert_eq!(wheel_button(-2), 65);
    assert_eq!(button_code(MouseButton::Left), 0);
    assert_eq!(button_code(MouseButton::Middle), 1);
    assert_eq!(button_code(MouseButton::Right), 2);
    assert_eq!(button_code(MouseButton::Back), 8);
    assert_eq!(button_code(MouseButton::Forward), 9);
    assert_eq!(button_code(MouseButton::Other(7)), 0);
    assert_eq!(motion_button(Some(MouseButton::Right)), 34);
    assert_eq!(motion_button(None), 35);
}

#[test]
fn mouse_mode_bits() {
    assert!(!mouse_mode_active(TermMode { bits: 0 }));
    assert!(mouse_mode_active(TermMode { bits: 0x8 }));
    assert!(mouse_mode_active(TermMode { bits: 0x2000 }));
    assert!(mouse_mode_active(TermMode { bits: 0x40 }));
    assert!(!mouse_mode_active(TermMode { bits: 0x20 }));
}

#[test]
fn sgr_reports() {
    let sgr = TermMode { bits: 0x20 };
    let p = GridPoint { line: 4, column: 9 };
    assert_eq!(encode_mouse_report(p, 0, ElementState::Pressed, mods(false, false, false), sgr), b"\x1b[<0;10;5M".to_vec());
    assert_eq!(encode_mouse_report(p, 2, ElementState::Released, mods(true, true, false), sgr), b"\x1b[<22;10;5m".to_vec());
    let above = GridPoint { line: -3, column: 0 };
    assert_eq!(encode_mouse_report(above, 64, ElementState::Pressed, mods(false, false, true), sgr), b"\x1b[<72;1;-2M".to_vec());
}

#[test]
fn legacy_reports() {
    let legacy = TermMode { bits: 0 };
    let p = GridPoint { line: 0, column: 0 };
    assert_eq!(encode_mouse_report(p, 0, ElementState::Pressed, mods(false, false, false), legacy), vec![0x1b, b'M', 32, 33, 33]);
    assert_eq!(encode_mouse_report(p, 1, ElementState::Released, mods(false, true, false), legacy), vec![0x1b, b'M', 51, 33, 33]);
    let q = GridPoint { line: 4, column: 9 };
    assert_eq!(encode_mouse_report(q, 0, ElementState::Pressed, mods(false, false, false), legacy), vec![0x1b, b'M', 32, 42, 37]);
    assert_eq!(encode_mouse_report(q, 0, ElementState::Released, mods(false, false, false), legacy), vec![0x1b, b'M', 35, 42, 37]);
    let far = GridPoint { line: 500, column: 300 };
    assert_eq!(encode_mouse_report(far, 0, ElementState::Pressed, mods(false, false, false), legacy), vec![0x1b, b'M', 32, 255, 255]);
    let history = GridPoint { line: -2, column: 5 };
    assert_eq!(encode_mouse_report(history, 0, ElementState::Pressed, mods(false, false, false), legacy), vec![0x1b, b'M', 32, 38, 255]);
    assert_eq!(encode_mouse_report(p, 250, ElementState::Pressed, mods(true, true, true), legacy)[2], 255);
}

#[test]
fn shift_leaves_the_mouse_to_selection() {
    let reporting = TermMode { bits: MOUSE_REPORT_CLICK | SGR_MOUSE };
    assert!(mouse_reporting_applies(ModifiersState::empty(), Some(reporting)));
    assert!(mouse_reporting_applies(ModifiersState::control(), Some(reporting)));
    assert!(!mouse_reporting_applies(ModifiersState::shift(), Some(reporting)));
    assert!(!mouse_reporting_applies(ModifiersState::empty(), Some(TermMode { bits: SGR_MOUSE })));
    assert!(!mouse_reporting_applies(ModifiersState::empty(), None));
}

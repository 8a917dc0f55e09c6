//! Mouse reporting to the program in the terminal: button codes and the
//! SGR and legacy X10 report encodings.

use vstd::prelude::*;

use crate::keys::{
    mode_has, ElementState, ModifiersState, TermMode, MOUSE_DRAG, MOUSE_MOTION, MOUSE_REPORT_CLICK,
    SGR_MOUSE,
};
use crate::text::{decimal, push_decimal};

verus! {

/// A mouse button.
#[derive(Debug, Clone, Copy, PartialEq, Eq, Structural)]
pub enum MouseButton {
    Left,
    Right,
    Middle,
    Back,
    Forward,
    Other(u16),
}

/// A grid position: `line` counts from the top of the screen and is
/// negative in the scrollback history.
#[derive(Debug, Clone, Copy, PartialEq, Eq, Structural)]
pub struct GridPoint {
    pub line: i32,
    pub column: usize,
}

/// The terminal has asked for mouse reports.
pub fn mouse_mode_active(mode: TermMode) -> (r: bool)
    ensures
        r == (mode.bits & (MOUSE_REPORT_CLICK | MOUSE_DRAG | MOUSE_MOTION) != 0),
{
    mode.intersects(MOUSE_REPORT_CLICK | MOUSE_DRAG | MOUSE_MOTION)
}

pub open spec fn button_code_spec(button: MouseButton) -> u8 {
    match button {
        MouseButton::Left => 0,
        MouseButton::Middle => 1,
        MouseButton::Right => 2,
        MouseButton::Back => 8,
        MouseButton::Forward => 9,
        MouseButton::Other(_) => 0,
    }
}

/// Button code reported for a mouse-wheel step: 64 scrolls up, 65 scrolls down.
pub fn wheel_button(lines: i32) -> (code: u8)
    ensures
        code == (if lines > 0 { 64u8 } else { 65u8 }),
{
    if lines > 0 {
        64
    } else {
        65
    }
}

/// The report code of a button.
pub fn button_code(button: MouseButton) -> (r: u8)
    ensures
        r == button_code_spec(button),
{
    match button {
        MouseButton::Left => 0,
        MouseButton::Middle => 1,
        MouseButton::Right => 2,
        MouseButton::Back => 8,
        MouseButton::Forward => 9,
        MouseButton::Other(_) => 0,
    }
}

/// `a + b`, capped at 255.
pub open spec fn sat_add(a: u8, b: u8) -> u8 {
    if a + b > 255 {
        255
    } else {
        (a + b) as u8
    }
}

/// The code of a motion report: the held button plus 32 while dragging,
/// 35 for bare motion.
pub fn motion_button(pressed: Option<MouseButton>) -> (r: u8)
    ensures
        r == (match pressed {
            Some(b) => sat_add(button_code_spec(b), 32),
            None => 35u8,
        }),
{
    match pressed {
        Some(button) => button_code(button).saturating_add(32),
        None => 35,
    }
}

/// Modifier bits of a report: shift 4, alt 8, control 16.
pub open spec fn mouse_mods(m: ModifiersState) -> u8 {
    ((if m.shift { 4int } else { 0 }) + (if m.alt { 8int } else { 0 }) + (if m.control { 16int } else { 0 })) as u8
}

fn mouse_modifiers(modifiers: ModifiersState) -> (r: u8)
    ensures
        r == mouse_mods(modifiers),
        r <= 28,
{
    let mut mods: u8 = 0;
    if modifiers.shift_key() {
        mods += 4;
    }
    if modifiers.alt_key() {
        mods += 8;
    }
    if modifiers.control_key() {
        mods += 16;
    }
    mods
}

/// Decimal text of a signed number.
pub open spec fn signed_decimal(n: int) -> Seq<u8> {
    if n < 0 {
        seq![0x2du8] + decimal((-n) as nat)
    } else {
        decimal(n as nat)
    }
}

/// The byte of a legacy report coordinate: the 1-based coordinate, capped at
/// 223, taken as a byte (modulo 256), plus 32 capped at 255.
pub open spec fn legacy_coord(v: int) -> u8 {
    let capped = if v < 223 { v } else { 223 };
    sat_add((capped % 256) as u8, 32)
}

/// A mouse report: in SGR mode `ESC [ < code ; col ; row M` (`m` on
/// release), with 1-based coordinates in decimal; otherwise the legacy
/// X10 `ESC M` with three bytes, each offset by 32, where a release reports
/// button code 3 (plus the modifier bits).
pub open spec fn mouse_report(
    point: GridPoint,
    button: u8,
    state: ElementState,
    modifiers: ModifiersState,
    mode: TermMode,
) -> Seq<u8> {
    let code = sat_add(button, mouse_mods(modifiers));
    let col = point.column + 1;
    let row = point.line + 1;
    if mode_has(mode.bits, SGR_MOUSE) {
        seq![0x1bu8, 0x5bu8, 0x3cu8] + decimal(code as nat) + seq![0x3bu8] + decimal(col as nat) + seq![0x3bu8]
            + signed_decimal(row) + seq![if state == ElementState::Pressed { 0x4du8 } else { 0x6du8 }]
    } else if state == ElementState::Released {
        seq![0x1bu8, 0x4du8, sat_add((3 + mouse_mods(modifiers)) as u8, 32), legacy_coord(col), legacy_coord(row)]
    } else {
        seq![0x1bu8, 0x4du8, sat_add(code, 32), legacy_coord(col), legacy_coord(row)]
    }
}

fn coord_byte(v: i64) -> (r: u8)
    requires
        i32::MIN <= v <= i32::MAX + 1,
    ensures
        r == legacy_coord(v as int),
{
    let capped: i64 = if v < 223 { v } else { 223 };
    let low: u8 = if capped >= 0 {
        capped as u8
    } else {
        let a: u64 = (-capped) as u64;
        let rem = a % 256;
        let t: u8 = if rem == 0 { 0 } else { (256 - rem) as u8 };
        assert(t == capped % 256) by (nonlinear_arith)
            requires
                capped < 0,
                a == -capped,
                rem == a % 256,
                t == (if rem == 0 { 0 } else { 256 - rem }),
        ;
        t
    };
    low.saturating_add(32)
}

fn push_signed_decimal(out: &mut Vec<u8>, n: i64)
    requires
        n > i64::MIN,
    ensures
        final(out)@ == old(out)@ + signed_decimal(n as int),
{
    if n < 0 {
        out.push(0x2d);
        let ghost mid = out@;
        push_decimal(out, (-n) as u64);
        assert(out@ =~= old(out)@ + signed_decimal(n as int));
    } else {
        push_decimal(out, n as u64);
    }
}

/// Encodes a mouse report for the PTY (see `mouse_report`).
pub fn encode_mouse_report(
    point: GridPoint,
    button: u8,
    state: ElementState,
    modifiers: ModifiersState,
    mode: TermMode,
) -> (r: Vec<u8>)
    requires
        point.column < usize::MAX,
        point.line < i32::MAX,
    ensures
        r@ == mouse_report(point, button, state, modifiers, mode),
{
    let mods = mouse_modifiers(modifiers);
    let code = button.saturating_add(mods);
    let col = point.column + 1;
    let row: i64 = point.line as i64 + 1;
    let mut out: Vec<u8> = Vec::new();
    if mode.contains(SGR_MOUSE) {
        out.push(0x1b);
        out.push(0x5b);
        out.push(0x3c);
        push_decimal(&mut out, code as u64);
        out.push(0x3b);
        push_decimal(&mut out, col as u64);
        out.push(0x3b);
        push_signed_decimal(&mut out, row);
        out.push(if state == ElementState::Pressed { 0x4d } else { 0x6d });
        assert(out@ =~= mouse_report(point, button, state, modifiers, mode));
        out
    } else {
        let col_byte = if col < 223 { col as u8 + 32 } else { 255 };
        assert(col_byte == legacy_coord(col as int));
        let row_byte = coord_byte(row);
        out.push(0x1b);
        out.push(0x4d);
        if state == ElementState::Released {
            out.push((3 + mods).saturating_add(32));
        } else {
            out.push(code.saturating_add(32));
        }
        out.push(col_byte);
        out.push(row_byte);
        assert(out@ =~= mouse_report(point, button, state, modifiers, mode));
        out
    }
}

/// Whether a mouse event is reported to the program in the pane under the
/// pointer (whose mode is `pane_mode`; `None` when no pane is there): never
/// while Shift is held, which leaves the mouse to text selection, else when
/// the pane's program asked for mouse reports.
pub fn mouse_reporting_applies(modifiers: ModifiersState, pane_mode: Option<TermMode>) -> (r: bool)
    ensures
        r == (!modifiers.shift && match pane_mode {
            Some(m) => m.bits & (MOUSE_REPORT_CLICK | MOUSE_DRAG | MOUSE_MOTION) != 0,
            None => false,
        }),
{
    if modifiers.shift {
        return false;
    }
    match pane_mode {
        Some(mode) => mouse_mode_active(mode),
        None => false,
    }
}

} // verus!

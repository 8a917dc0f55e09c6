//! Encoding of key presses as the bytes a terminal application expects:
//! legacy xterm sequences, keypad modes, modifyOtherKeys and the Kitty
//! keyboard protocol.

use vstd::prelude::*;
use vstd::utf8::encode_utf8;

use crate::keys::{
    mode_has, ElementState, Key, KeyEvent, ModifiersState, NamedKey, PhysicalKey, TermMode,
    APP_CURSOR, APP_KEYPAD, DISAMBIGUATE_ESC_CODES, KITTY_KEYBOARD_PROTOCOL, REPORT_ALL_KEYS_AS_ESC,
    REPORT_ASSOCIATED_TEXT, REPORT_EVENT_TYPES,
};
use crate::pty::output_tap::ModifyOtherKeys;
use crate::text::{ascii_upper, decimal, push_bytes, push_decimal, string_bytes, to_ascii_upper};

verus! {

/// What a key press asks the terminal window to do.
#[derive(Debug, Clone, PartialEq, Eq)]
pub enum KeyAction {
    SendToTerminal(Vec<u8>),
    NewTab,
    DuplicateTab,
    CloseTab,
    DetachTab,
    NextTab,
    PrevTab,
    SelectTab(usize),
    RenameTab,
    Copy,
    Paste,
    ZoomIn,
    ZoomOut,
    ZoomReset,
    ClearScrollback,
    OpenSearch,
    OpenCommandPalette,
    SplitVertical,
    SplitHorizontal,
    ClosePane,
    FocusPaneLeft,
    FocusPaneRight,
    FocusPaneUp,
    FocusPaneDown,
    ScrollPageUp,
    ScrollPageDown,
    JumpPromptPrev,
    JumpPromptNext,
    ToggleFullscreen,
}

/// `ESC [`.
pub open spec fn csi() -> Seq<u8> {
    seq![0x1bu8, 0x5bu8]
}

/// The event's text when it has some.
pub open spec fn nonempty_text(e: KeyEvent) -> Option<Seq<char>> {
    match e.text {
        Some(t) => if t@.len() > 0 {
            Some(t@)
        } else {
            None
        },
        None => None,
    }
}

/// Modifier parameter of xterm/Kitty sequences: 1 + shift + 2·alt + 4·ctrl + 8·super.
pub open spec fn modifier_param(m: ModifiersState) -> u8 {
    (1 + (if m.shift { 1int } else { 0 }) + (if m.alt { 2int } else { 0 }) + (if m.control {
        4int
    } else {
        0
    }) + (if m.super_key { 8int } else { 0 })) as u8
}

/// Cursor-key sequence in normal or application cursor mode.
pub open spec fn cursor_key_bytes(final_byte: u8, app_cursor: bool) -> Seq<u8> {
    if app_cursor {
        seq![0x1bu8, 0x4fu8, final_byte]
    } else {
        seq![0x1bu8, 0x5bu8, final_byte]
    }
}

/// Keypad key in application or numeric keypad mode.
pub open spec fn keypad_key_bytes(bits: u32, app_final: u8, normal: u8) -> Seq<u8> {
    if mode_has(bits, APP_KEYPAD) {
        seq![0x1bu8, 0x5bu8, 0x4fu8, app_final]
    } else {
        seq![normal]
    }
}

/// Bytes for keypad keys, chosen by physical key.
pub open spec fn physical_key_bytes(p: PhysicalKey, bits: u32) -> Option<Seq<u8>> {
    match p {
        PhysicalKey::NumpadEnter => Some(seq![0x0du8]),
        PhysicalKey::NumpadAdd => Some(keypad_key_bytes(bits, 0x6c, 0x2b)),
        PhysicalKey::NumpadSubtract => Some(keypad_key_bytes(bits, 0x6d, 0x2d)),
        PhysicalKey::NumpadMultiply => Some(keypad_key_bytes(bits, 0x6a, 0x2a)),
        PhysicalKey::NumpadDivide => Some(keypad_key_bytes(bits, 0x6f, 0x2f)),
        PhysicalKey::NumpadDecimal => Some(keypad_key_bytes(bits, 0x6e, 0x2e)),
        PhysicalKey::Numpad0 => Some(keypad_key_bytes(bits, 0x70, 0x30)),
        PhysicalKey::Numpad1 => Some(keypad_key_bytes(bits, 0x71, 0x31)),
        PhysicalKey::Numpad2 => Some(keypad_key_bytes(bits, 0x72, 0x32)),
        PhysicalKey::Numpad3 => Some(keypad_key_bytes(bits, 0x73, 0x33)),
        PhysicalKey::Numpad4 => Some(keypad_key_bytes(bits, 0x74, 0x34)),
        PhysicalKey::Numpad5 => Some(keypad_key_bytes(bits, 0x75, 0x35)),
        PhysicalKey::Numpad6 => Some(keypad_key_bytes(bits, 0x76, 0x36)),
        PhysicalKey::Numpad7 => Some(keypad_key_bytes(bits, 0x77, 0x37)),
        PhysicalKey::Numpad8 => Some(keypad_key_bytes(bits, 0x78, 0x38)),
        PhysicalKey::Numpad9 => Some(keypad_key_bytes(bits, 0x79, 0x39)),
        _ => None,
    }
}

/// Ctrl+letter gives the letter's control code (Ctrl+A = 1); Ctrl+@ gives NUL.
pub open spec fn ctrl_char_bytes(text: Seq<char>) -> Option<Seq<u8>> {
    if text.len() == 0 {
        None
    } else {
        let ch = text[0];
        let upper = ascii_upper(ch);
        if 'A' <= upper && upper <= 'Z' {
            Some(seq![(upper as u32 - 'A' as u32 + 1) as u8])
        } else if ch == '@' {
            Some(seq![0u8])
        } else {
            None
        }
    }
}

/// A key of the Kitty keyboard protocol: its number, the final byte of its
/// sequence, and whether it is a functional key.
#[derive(Clone, Copy, PartialEq, Eq, Debug, Structural)]
pub struct KittyKey {
    pub code: u32,
    pub suffix: u8,
    pub is_functional: bool,
}

impl KittyKey {
    pub open spec fn spec_u(code: u32) -> KittyKey {
        KittyKey { code, suffix: 0x75, is_functional: false }
    }

    pub open spec fn spec_functional(code: u32, suffix: u8) -> KittyKey {
        KittyKey { code, suffix, is_functional: true }
    }

    pub fn u(code: u32) -> (r: KittyKey)
        ensures
            r == KittyKey::spec_u(code),
    {
        KittyKey { code, suffix: 0x75, is_functional: false }
    }

    pub fn functional(code: u32, suffix: u8) -> (r: KittyKey)
        ensures
            r == KittyKey::spec_functional(code, suffix),
    {
        KittyKey { code, suffix, is_functional: true }
    }

    /// Keys sent as `CSI final` when there is nothing else to say.
    pub open spec fn spec_short_form(self) -> bool {
        self.is_functional && self.code == 1 && self.suffix != 0x75 && self.suffix != 0x7e
    }

    pub fn uses_short_csi_form(self) -> (r: bool)
        ensures
            r == self.spec_short_form(),
    {
        self.is_functional && self.code == 1 && self.suffix != 0x75 && self.suffix != 0x7e
    }
}

/// The Kitty functional-key table.
pub open spec fn kitty_functional_of(k: NamedKey) -> Option<KittyKey> {
    match k {
        NamedKey::Escape => Some(KittyKey::spec_functional(27, 0x75)),
        NamedKey::Enter => Some(KittyKey::spec_functional(13, 0x75)),
        NamedKey::Tab => Some(KittyKey::spec_functional(9, 0x75)),
        NamedKey::Backspace => Some(KittyKey::spec_functional(127, 0x75)),
        NamedKey::Insert => Some(KittyKey::spec_functional(2, 0x7e)),
        NamedKey::Delete => Some(KittyKey::spec_functional(3, 0x7e)),
        NamedKey::ArrowLeft => Some(KittyKey::spec_functional(1, 0x44)),
        NamedKey::ArrowRight => Some(KittyKey::spec_functional(1, 0x43)),
        NamedKey::ArrowUp => Some(KittyKey::spec_functional(1, 0x41)),
        NamedKey::ArrowDown => Some(KittyKey::spec_functional(1, 0x42)),
        NamedKey::PageUp => Some(KittyKey::spec_functional(5, 0x7e)),
        NamedKey::PageDown => Some(KittyKey::spec_functional(6, 0x7e)),
        NamedKey::Home => Some(KittyKey::spec_functional(1, 0x48)),
        NamedKey::End => Some(KittyKey::spec_functional(1, 0x46)),
        NamedKey::CapsLock => Some(KittyKey::spec_functional(57358, 0x75)),
        NamedKey::ScrollLock => Some(KittyKey::spec_functional(57359, 0x75)),
        NamedKey::NumLock => Some(KittyKey::spec_functional(57360, 0x75)),
        NamedKey::PrintScreen => Some(KittyKey::spec_functional(57361, 0x75)),
        NamedKey::Pause => Some(KittyKey::spec_functional(57362, 0x75)),
        NamedKey::ContextMenu => Some(KittyKey::spec_functional(57363, 0x75)),
        NamedKey::F1 => Some(KittyKey::spec_functional(1, 0x50)),
        NamedKey::F2 => Some(KittyKey::spec_functional(1, 0x51)),
        NamedKey::F3 => Some(KittyKey::spec_functional(13, 0x7e)),
        NamedKey::F4 => Some(KittyKey::spec_functional(1, 0x53)),
        NamedKey::F5 => Some(KittyKey::spec_functional(15, 0x7e)),
        NamedKey::F6 => Some(KittyKey::spec_functional(17, 0x7e)),
        NamedKey::F7 => Some(KittyKey::spec_functional(18, 0x7e)),
        NamedKey::F8 => Some(KittyKey::spec_functional(19, 0x7e)),
        NamedKey::F9 => Some(KittyKey::spec_functional(20, 0x7e)),
        NamedKey::F10 => Some(KittyKey::spec_functional(21, 0x7e)),
        NamedKey::F11 => Some(KittyKey::spec_functional(23, 0x7e)),
        NamedKey::F12 => Some(KittyKey::spec_functional(24, 0x7e)),
        NamedKey::F13 => Some(KittyKey::spec_functional(57376, 0x75)),
        NamedKey::F14 => Some(KittyKey::spec_functional(57377, 0x75)),
        NamedKey::F15 => Some(KittyKey::spec_functional(57378, 0x75)),
        NamedKey::F16 => Some(KittyKey::spec_functional(57379, 0x75)),
        NamedKey::F17 => Some(KittyKey::spec_functional(57380, 0x75)),
        NamedKey::F18 => Some(KittyKey::spec_functional(57381, 0x75)),
        NamedKey::F19 => Some(KittyKey::spec_functional(57382, 0x75)),
        NamedKey::F20 => Some(KittyKey::spec_functional(57383, 0x75)),
        NamedKey::F21 => Some(KittyKey::spec_functional(57384, 0x75)),
        NamedKey::F22 => Some(KittyKey::spec_functional(57385, 0x75)),
        NamedKey::F23 => Some(KittyKey::spec_functional(57386, 0x75)),
        NamedKey::F24 => Some(KittyKey::spec_functional(57387, 0x75)),
        NamedKey::F25 => Some(KittyKey::spec_functional(57388, 0x75)),
        NamedKey::F26 => Some(KittyKey::spec_functional(57389, 0x75)),
        NamedKey::F27 => Some(KittyKey::spec_functional(57390, 0x75)),
        NamedKey::F28 => Some(KittyKey::spec_functional(57391, 0x75)),
        NamedKey::F29 => Some(KittyKey::spec_functional(57392, 0x75)),
        NamedKey::F30 => Some(KittyKey::spec_functional(57393, 0x75)),
        NamedKey::F31 => Some(KittyKey::spec_functional(57394, 0x75)),
        NamedKey::F32 => Some(KittyKey::spec_functional(57395, 0x75)),
        NamedKey::F33 => Some(KittyKey::spec_functional(57396, 0x75)),
        NamedKey::F34 => Some(KittyKey::spec_functional(57397, 0x75)),
        NamedKey::F35 => Some(KittyKey::spec_functional(57398, 0x75)),
        _ => None,
    }
}

pub open spec fn kitty_functional_spec(e: KeyEvent) -> Option<KittyKey> {
    match e.logical_key {
        Key::Named(k) => kitty_functional_of(k),
        _ => None,
    }
}

/// Kitty key number of a character key: its single character, or (when every
/// key is reported) the first character of the event text.
pub open spec fn kitty_character_spec(e: KeyEvent, bits: u32) -> Option<u32> {
    match e.logical_key {
        Key::Named(NamedKey::Space) => Some(32),
        Key::Character(t) => if t@.len() == 0 {
            None
        } else if t@.len() == 1 {
            Some(t@[0] as u32)
        } else if mode_has(bits, REPORT_ALL_KEYS_AS_ESC) {
            match e.text {
                Some(x) => if x@.len() > 0 {
                    Some(x@[0] as u32)
                } else {
                    None
                },
                None => None,
            }
        } else {
            None
        },
        _ => None,
    }
}

/// Kitty key numbers of the keypad keys.
pub open spec fn kitty_physical_code(p: PhysicalKey) -> Option<u32> {
    match p {
        PhysicalKey::Numpad0 => Some(57399),
        PhysicalKey::Numpad1 => Some(57400),
        PhysicalKey::Numpad2 => Some(57401),
        PhysicalKey::Numpad3 => Some(57402),
        PhysicalKey::Numpad4 => Some(57403),
        PhysicalKey::Numpad5 => Some(57404),
        PhysicalKey::Numpad6 => Some(57405),
        PhysicalKey::Numpad7 => Some(57406),
        PhysicalKey::Numpad8 => Some(57407),
        PhysicalKey::Numpad9 => Some(57408),
        PhysicalKey::NumpadDecimal => Some(57409),
        PhysicalKey::NumpadDivide => Some(57410),
        PhysicalKey::NumpadMultiply => Some(57411),
        PhysicalKey::NumpadSubtract => Some(57412),
        PhysicalKey::NumpadAdd => Some(57413),
        PhysicalKey::NumpadEnter => Some(57414),
        PhysicalKey::NumpadEqual => Some(57415),
        PhysicalKey::Other => None,
    }
}

/// Kitty event type: 1 press, 2 repeat, 3 release.
pub open spec fn kitty_event_type(e: KeyEvent) -> u8 {
    match e.state {
        ElementState::Pressed => if e.repeat {
            2
        } else {
            1
        },
        ElementState::Released => 3,
    }
}

/// The key a Kitty sequence names: functional key, else character, else keypad key.
pub open spec fn kitty_key_for(e: KeyEvent, bits: u32) -> Option<KittyKey> {
    match kitty_functional_spec(e) {
        Some(k) => Some(k),
        None => match kitty_character_spec(e, bits) {
            Some(c) => Some(KittyKey::spec_u(c)),
            None => match kitty_physical_code(e.physical_key) {
                Some(c) => Some(KittyKey::spec_u(c)),
                None => None,
            },
        },
    }
}

/// Code points of `s` in decimal, separated by `:`.
pub open spec fn joined_codes(s: Seq<char>) -> Seq<u8>
    decreases s.len(),
{
    if s.len() == 0 {
        Seq::empty()
    } else if s.len() == 1 {
        decimal(s[0] as u32 as nat)
    } else {
        joined_codes(s.drop_last()) + seq![0x3au8] + decimal(s.last() as u32 as nat)
    }
}

/// The associated-text parameter, when the terminal asked for it.
pub open spec fn kitty_text_param(e: KeyEvent, bits: u32) -> Option<Seq<u8>> {
    if mode_has(bits, REPORT_ASSOCIATED_TEXT) {
        match nonempty_text(e) {
            Some(t) => Some(joined_codes(t)),
            None => None,
        }
    } else {
        None
    }
}

/// The modifier/event-type parameter of a Kitty sequence (empty when it says nothing).
pub open spec fn kitty_second_param(report_events: bool, mv: u8, event_type: u8) -> Seq<u8> {
    if report_events {
        seq![0x3bu8] + decimal(mv as nat) + seq![0x3au8] + decimal(event_type as nat)
    } else if mv != 1 {
        seq![0x3bu8] + decimal(mv as nat)
    } else {
        Seq::empty()
    }
}

/// The associated-text parameter of a Kitty sequence.
pub open spec fn kitty_third_param(text: Option<Seq<u8>>) -> Seq<u8> {
    match text {
        Some(t) => seq![0x3bu8] + t,
        None => Seq::empty(),
    }
}

/// `CSI code second third suffix`, or `CSI suffix` for the short-form keys
/// when there are no parameters.
pub open spec fn kitty_sequence(key: KittyKey, second: Seq<u8>, third: Seq<u8>) -> Seq<u8> {
    if key.spec_short_form() && second.len() == 0 && third.len() == 0 {
        csi().push(key.suffix)
    } else {
        (csi() + decimal(key.code as nat) + second + third).push(key.suffix)
    }
}

/// Whether the Kitty protocol reports this key at all (otherwise legacy encoding applies).
pub open spec fn kitty_should_encode(e: KeyEvent, m: ModifiersState, bits: u32, key: KittyKey) -> bool {
    let report_all = mode_has(bits, REPORT_ALL_KEYS_AS_ESC);
    let disambiguate = mode_has(bits, DISAMBIGUATE_ESC_CODES) || report_all;
    let has_modifier = m.shift || m.alt || m.control || m.super_key;
    report_all || kitty_text_param(e, bits) is Some || kitty_event_type(e) != 1 || key.is_functional
        || (disambiguate && has_modifier)
}

/// The Kitty keyboard protocol sequence for a key event, if the protocol reports it.
pub open spec fn kitty_bytes(e: KeyEvent, m: ModifiersState, bits: u32) -> Option<Seq<u8>> {
    let report_events = mode_has(bits, REPORT_EVENT_TYPES);
    if kitty_event_type(e) != 1 && !report_events {
        None
    } else {
        match kitty_key_for(e, bits) {
            None => None,
            Some(key) => if !kitty_should_encode(e, m, bits, key) {
                None
            } else {
                Some(
                    kitty_sequence(
                        key,
                        kitty_second_param(report_events, modifier_param(m), kitty_event_type(e)),
                        kitty_third_param(kitty_text_param(e, bits)),
                    ),
                )
            },
        }
    }
}

/// The key number modifyOtherKeys reports for an event.
pub open spec fn mok_keycode(e: KeyEvent) -> Option<u32> {
    match e.logical_key {
        Key::Named(NamedKey::Enter) => Some(13),
        Key::Named(NamedKey::Tab) => Some(9),
        Key::Named(NamedKey::Backspace) => Some(127),
        Key::Named(NamedKey::Escape) => Some(27),
        Key::Named(NamedKey::Space) => Some(32),
        Key::Character(t) => if t@.len() == 1 {
            Some(t@[0] as u32)
        } else {
            None
        },
        _ => None,
    }
}

/// The control byte that Ctrl plus this key has a well-known meaning for.
pub open spec fn well_defined_ctrl(e: KeyEvent, m: ModifiersState) -> Option<u8> {
    match e.logical_key {
        Key::Character(t) => if t@.len() == 0 {
            None
        } else {
            let ch = t@[0];
            if ('a' <= ch && ch <= 'z') || ('A' <= ch && ch <= 'Z') {
                Some((ascii_upper(ch) as u32 - 'A' as u32 + 1) as u8)
            } else if ch == '@' {
                Some(0)
            } else if ch == '[' {
                Some(27)
            } else if ch == '\\' {
                Some(28)
            } else if ch == ']' {
                Some(29)
            } else if ch == '^' {
                Some(30)
            } else if ch == '_' {
                Some(31)
            } else if ch == ' ' {
                Some(0)
            } else {
                None
            }
        },
        Key::Named(NamedKey::Space) => if m.control {
            Some(0)
        } else {
            None
        },
        _ => None,
    }
}

/// The modifyOtherKeys sequence `CSI key ; mods u`, when the mode asks for one.
pub open spec fn mok_bytes(e: KeyEvent, m: ModifiersState, mode: ModifyOtherKeys) -> Option<Seq<u8>> {
    let mv = modifier_param(m);
    if mv == 1 {
        None
    } else {
        match mok_keycode(e) {
            None => None,
            Some(code) => if mode == ModifyOtherKeys::EnableExceptWellDefined && ((m.control
                && !m.alt && well_defined_ctrl(e, m) is Some) || (m.shift && !m.control
                && !m.alt)) {
                None
            } else {
                Some(
                    csi() + decimal(code as nat) + seq![0x3bu8] + decimal(mv as nat) + seq![0x75u8],
                )
            },
        }
    }
}

/// Bytes of the event text when it has some.
pub open spec fn nonempty_text_bytes(e: KeyEvent) -> Option<Seq<u8>> {
    match nonempty_text(e) {
        Some(t) => Some(encode_utf8(t)),
        None => None,
    }
}

/// The legacy encoding of the logical key.
pub open spec fn logical_key_bytes(e: KeyEvent, m: ModifiersState, bits: u32) -> Option<Seq<u8>> {
    let app_cursor = mode_has(bits, APP_CURSOR);
    match e.logical_key {
        Key::Named(NamedKey::Enter) => match e.text {
            Some(t) => Some(encode_utf8(t@)),
            None => Some(seq![0x0du8]),
        },
        Key::Named(NamedKey::Backspace) => Some(seq![0x7fu8]),
        Key::Named(NamedKey::Tab) => if m.shift {
            Some(seq![0x1bu8, 0x5bu8, 0x5au8])
        } else {
            Some(seq![0x09u8])
        },
        Key::Named(NamedKey::Escape) => Some(seq![0x1bu8]),
        Key::Named(NamedKey::Space) => if m.control {
            Some(seq![0u8])
        } else if m.alt {
            Some(seq![0x1bu8, 0x20u8])
        } else {
            Some(seq![0x20u8])
        },
        Key::Named(NamedKey::ArrowUp) => Some(cursor_key_bytes(0x41, app_cursor)),
        Key::Named(NamedKey::ArrowDown) => Some(cursor_key_bytes(0x42, app_cursor)),
        Key::Named(NamedKey::ArrowRight) => Some(cursor_key_bytes(0x43, app_cursor)),
        Key::Named(NamedKey::ArrowLeft) => Some(cursor_key_bytes(0x44, app_cursor)),
        Key::Named(NamedKey::Home) => Some(cursor_key_bytes(0x48, app_cursor)),
        Key::Named(NamedKey::End) => Some(cursor_key_bytes(0x46, app_cursor)),
        Key::Named(NamedKey::Delete) => Some(seq![0x1bu8, 0x5bu8, 0x33u8, 0x7eu8]),
        Key::Named(NamedKey::PageUp) => Some(seq![0x1bu8, 0x5bu8, 0x35u8, 0x7eu8]),
        Key::Named(NamedKey::PageDown) => Some(seq![0x1bu8, 0x5bu8, 0x36u8, 0x7eu8]),
        Key::Character(t) => if m.control {
            ctrl_char_bytes(t@)
        } else if m.alt && encode_utf8(t@).len() == 1 {
            Some(seq![0x1bu8] + encode_utf8(t@))
        } else {
            match nonempty_text_bytes(e) {
                Some(b) => Some(b),
                None => Some(encode_utf8(t@)),
            }
        },
        _ => if !m.control && !m.alt {
            nonempty_text_bytes(e)
        } else {
            None
        },
    }
}

/// The bytes a key event sends to the terminal application, or `None` when it sends nothing.
pub open spec fn key_bytes(e: KeyEvent, m: ModifiersState, bits: u32, mok: ModifyOtherKeys) -> Option<Seq<u8>> {
    if e.state != ElementState::Pressed && !(mode_has(bits, REPORT_EVENT_TYPES) && mode_has(
        bits,
        KITTY_KEYBOARD_PROTOCOL,
    )) {
        None
    } else if e.repeat && !mode_has(bits, REPORT_EVENT_TYPES) {
        None
    } else if e.logical_key is Dead {
        None
    } else if mode_has(bits, KITTY_KEYBOARD_PROTOCOL) && kitty_bytes(e, m, bits) is Some {
        kitty_bytes(e, m, bits)
    } else if mok != ModifyOtherKeys::Reset && mok_bytes(e, m, mok) is Some {
        mok_bytes(e, m, mok)
    } else if physical_key_bytes(e.physical_key, bits) is Some {
        physical_key_bytes(e.physical_key, bits)
    } else {
        logical_key_bytes(e, m, bits)
    }
}

/// Copies a byte slice into a fresh vector.
fn bytes(b: &[u8]) -> (r: Vec<u8>)
    ensures
        r@ == b@,
{
    vstd::slice::slice_to_vec(b)
}

fn cursor_key(final_byte: u8, app_cursor: bool) -> (r: Vec<u8>)
    ensures
        r@ == cursor_key_bytes(final_byte, app_cursor),
{
    let mut v: Vec<u8> = Vec::new();
    v.push(0x1b);
    if app_cursor {
        v.push(0x4f);
    } else {
        v.push(0x5b);
    }
    v.push(final_byte);
    assert(v@ =~= cursor_key_bytes(final_byte, app_cursor));
    v
}

fn keypad_key(mode: TermMode, app_final: u8, normal: u8) -> (r: Option<Vec<u8>>)
    ensures
        r matches Some(v) && v@ == keypad_key_bytes(mode.bits, app_final, normal),
{
    let mut v: Vec<u8> = Vec::new();
    if mode.contains(APP_KEYPAD) {
        v.push(0x1b);
        v.push(0x5b);
        v.push(0x4f);
        v.push(app_final);
    } else {
        v.push(normal);
    }
    assert(v@ =~= keypad_key_bytes(mode.bits, app_final, normal));
    Some(v)
}

fn physical_key_to_bytes(physical: PhysicalKey, mode: TermMode) -> (r: Option<Vec<u8>>)
    ensures
        match r {
            Some(v) => physical_key_bytes(physical, mode.bits) == Some(v@),
            None => physical_key_bytes(physical, mode.bits) is None,
        },
{
    match physical {
        PhysicalKey::NumpadEnter => {
            let mut v: Vec<u8> = Vec::new();
            v.push(0x0d);
            assert(v@ =~= seq![0x0du8]);
            Some(v)
        },
        PhysicalKey::NumpadAdd => keypad_key(mode, 0x6c, 0x2b),
        PhysicalKey::NumpadSubtract => keypad_key(mode, 0x6d, 0x2d),
        PhysicalKey::NumpadMultiply => keypad_key(mode, 0x6a, 0x2a),
        PhysicalKey::NumpadDivide => keypad_key(mode, 0x6f, 0x2f),
        PhysicalKey::NumpadDecimal => keypad_key(mode, 0x6e, 0x2e),
        PhysicalKey::Numpad0 => keypad_key(mode, 0x70, 0x30),
        PhysicalKey::Numpad1 => keypad_key(mode, 0x71, 0x31),
        PhysicalKey::Numpad2 => keypad_key(mode, 0x72, 0x32),
        PhysicalKey::Numpad3 => keypad_key(mode, 0x73, 0x33),
        PhysicalKey::Numpad4 => keypad_key(mode, 0x74, 0x34),
        PhysicalKey::Numpad5 => keypad_key(mode, 0x75, 0x35),
        PhysicalKey::Numpad6 => keypad_key(mode, 0x76, 0x36),
        PhysicalKey::Numpad7 => keypad_key(mode, 0x77, 0x37),
        PhysicalKey::Numpad8 => keypad_key(mode, 0x78, 0x38),
        PhysicalKey::Numpad9 => keypad_key(mode, 0x79, 0x39),
        _ => None,
    }
}

/// First character of a string, if any.
fn first_char(s: &String) -> (r: Option<char>)
    ensures
        match r {
            Some(c) => s@.len() > 0 && c == s@[0],
            None => s@.len() == 0,
        },
{
    let chars = crate::text::chars_of(s.as_str());
    if chars.len() == 0 {
        None
    } else {
        Some(chars[0])
    }
}

/// Number of characters of a string.
fn char_count(s: &String) -> (r: usize)
    ensures
        r == s@.len(),
{
    crate::text::chars_of(s.as_str()).len()
}

fn ctrl_char(text: &String) -> (r: Option<Vec<u8>>)
    ensures
        match r {
            Some(v) => ctrl_char_bytes(text@) == Some(v@),
            None => ctrl_char_bytes(text@) is None,
        },
{
    let ch = match first_char(text) {
        Some(c) => c,
        None => return None,
    };
    let upper = to_ascii_upper(ch);
    if 'A' <= upper && upper <= 'Z' {
        let mut v: Vec<u8> = Vec::new();
        v.push((upper as u8) - 0x41 + 1);
        assert(v@ =~= seq![(upper as u32 - 'A' as u32 + 1) as u8]);
        return Some(v);
    }
    if ch == '@' {
        let mut v: Vec<u8> = Vec::new();
        v.push(0);
        assert(v@ =~= seq![0u8]);
        return Some(v);
    }
    None
}

/// Kitty/xterm modifier parameter.
pub fn kitty_modifier_value(modifiers: ModifiersState) -> (r: u8)
    ensures
        r == modifier_param(modifiers),
{
    let mut value: u8 = 1;
    if modifiers.shift_key() {
        value += 1;
    }
    if modifiers.alt_key() {
        value += 2;
    }
    if modifiers.control_key() {
        value += 4;
    }
    if modifiers.super_key() {
        value += 8;
    }
    value
}

/// modifyOtherKeys modifier parameter (the same formula as Kitty's).
pub fn modify_other_modifier_value(modifiers: ModifiersState) -> (r: u8)
    ensures
        r == modifier_param(modifiers),
{
    kitty_modifier_value(modifiers)
}

fn kitty_functional_key(event: &KeyEvent) -> (r: Option<KittyKey>)
    ensures
        r == kitty_functional_spec(*event),
{
    let k = match &event.logical_key {
        Key::Named(k) => *k,
        _ => return None,
    };
    match k {
        NamedKey::Escape => Some(KittyKey::functional(27, 0x75)),
        NamedKey::Enter => Some(KittyKey::functional(13, 0x75)),
        NamedKey::Tab => Some(KittyKey::functional(9, 0x75)),
        NamedKey::Backspace => Some(KittyKey::functional(127, 0x75)),
        NamedKey::Insert => Some(KittyKey::functional(2, 0x7e)),
        NamedKey::Delete => Some(KittyKey::functional(3, 0x7e)),
        NamedKey::ArrowLeft => Some(KittyKey::functional(1, 0x44)),
        NamedKey::ArrowRight => Some(KittyKey::functional(1, 0x43)),
        NamedKey::ArrowUp => Some(KittyKey::functional(1, 0x41)),
        NamedKey::ArrowDown => Some(KittyKey::functional(1, 0x42)),
        NamedKey::PageUp => Some(KittyKey::functional(5, 0x7e)),
        NamedKey::PageDown => Some(KittyKey::functional(6, 0x7e)),
        NamedKey::Home => Some(KittyKey::functional(1, 0x48)),
        NamedKey::End => Some(KittyKey::functional(1, 0x46)),
        NamedKey::CapsLock => Some(KittyKey::functional(57358, 0x75)),
        NamedKey::ScrollLock => Some(KittyKey::functional(57359, 0x75)),
        NamedKey::NumLock => Some(KittyKey::functional(57360, 0x75)),
        NamedKey::PrintScreen => Some(KittyKey::functional(57361, 0x75)),
        NamedKey::Pause => Some(KittyKey::functional(57362, 0x75)),
        NamedKey::ContextMenu => Some(KittyKey::functional(57363, 0x75)),
        NamedKey::F1 => Some(KittyKey::functional(1, 0x50)),
        NamedKey::F2 => Some(KittyKey::functional(1, 0x51)),
        NamedKey::F3 => Some(KittyKey::functional(13, 0x7e)),
        NamedKey::F4 => Some(KittyKey::functional(1, 0x53)),
        NamedKey::F5 => Some(KittyKey::functional(15, 0x7e)),
        NamedKey::F6 => Some(KittyKey::functional(17, 0x7e)),
        NamedKey::F7 => Some(KittyKey::functional(18, 0x7e)),
        NamedKey::F8 => Some(KittyKey::functional(19, 0x7e)),
        NamedKey::F9 => Some(KittyKey::functional(20, 0x7e)),
        NamedKey::F10 => Some(KittyKey::functional(21, 0x7e)),
        NamedKey::F11 => Some(KittyKey::functional(23, 0x7e)),
        NamedKey::F12 => Some(KittyKey::functional(24, 0x7e)),
        NamedKey::F13 => Some(KittyKey::functional(57376, 0x75)),
        NamedKey::F14 => Some(KittyKey::functional(57377, 0x75)),
        NamedKey::F15 => Some(KittyKey::functional(57378, 0x75)),
        NamedKey::F16 => Some(KittyKey::functional(57379, 0x75)),
        NamedKey::F17 => Some(KittyKey::functional(57380, 0x75)),
        NamedKey::F18 => Some(KittyKey::functional(57381, 0x75)),
        NamedKey::F19 => Some(KittyKey::functional(57382, 0x75)),
        NamedKey::F20 => Some(KittyKey::functional(57383, 0x75)),
        NamedKey::F21 => Some(KittyKey::functional(57384, 0x75)),
        NamedKey::F22 => Some(KittyKey::functional(57385, 0x75)),
        NamedKey::F23 => Some(KittyKey::functional(57386, 0x75)),
        NamedKey::F24 => Some(KittyKey::functional(57387, 0x75)),
        NamedKey::F25 => Some(KittyKey::functional(57388, 0x75)),
        NamedKey::F26 => Some(KittyKey::functional(57389, 0x75)),
        NamedKey::F27 => Some(KittyKey::functional(57390, 0x75)),
        NamedKey::F28 => Some(KittyKey::functional(57391, 0x75)),
        NamedKey::F29 => Some(KittyKey::functional(57392, 0x75)),
        NamedKey::F30 => Some(KittyKey::functional(57393, 0x75)),
        NamedKey::F31 => Some(KittyKey::functional(57394, 0x75)),
        NamedKey::F32 => Some(KittyKey::functional(57395, 0x75)),
        NamedKey::F33 => Some(KittyKey::functional(57396, 0x75)),
        NamedKey::F34 => Some(KittyKey::functional(57397, 0x75)),
        NamedKey::F35 => Some(KittyKey::functional(57398, 0x75)),
        _ => None,
    }
}

fn kitty_character_code(event: &KeyEvent, mode: TermMode) -> (r: Option<u32>)
    ensures
        r == kitty_character_spec(*event, mode.bits),
{
    match &event.logical_key {
        Key::Named(NamedKey::Space) => Some(32),
        Key::Character(text) => {
            let chars = crate::text::chars_of(text.as_str());
            if chars.len() == 0 {
                return None;
            }
            if chars.len() == 1 {
                return Some(chars[0] as u32);
            }
            if mode.contains(REPORT_ALL_KEYS_AS_ESC) {
                match &event.text {
                    Some(t) => match first_char(t) {
                        Some(c) => Some(c as u32),
                        None => None,
                    },
                    None => None,
                }
            } else {
                None
            }
        },
        _ => None,
    }
}

fn kitty_physical_key_code(physical: PhysicalKey) -> (r: Option<u32>)
    ensures
        r == kitty_physical_code(physical),
{
    match physical {
        PhysicalKey::Numpad0 => Some(57399),
        PhysicalKey::Numpad1 => Some(57400),
        PhysicalKey::Numpad2 => Some(57401),
        PhysicalKey::Numpad3 => Some(57402),
        PhysicalKey::Numpad4 => Some(57403),
        PhysicalKey::Numpad5 => Some(57404),
        PhysicalKey::Numpad6 => Some(57405),
        PhysicalKey::Numpad7 => Some(57406),
        PhysicalKey::Numpad8 => Some(57407),
        PhysicalKey::Numpad9 => Some(57408),
        PhysicalKey::NumpadDecimal => Some(57409),
        PhysicalKey::NumpadDivide => Some(57410),
        PhysicalKey::NumpadMultiply => Some(57411),
        PhysicalKey::NumpadSubtract => Some(57412),
        PhysicalKey::NumpadAdd => Some(57413),
        PhysicalKey::NumpadEnter => Some(57414),
        PhysicalKey::NumpadEqual => Some(57415),
        PhysicalKey::Other => None,
    }
}

/// Code points of `s` in decimal, separated by `:`.
fn joined_codes_of(s: &[char]) -> (r: Vec<u8>)
    ensures
        r@ == joined_codes(s@),
{
    let mut out: Vec<u8> = Vec::new();
    let mut i: usize = 0;
    while i < s.len()
        invariant
            i <= s@.len(),
            out@ == joined_codes(s@.take(i as int)),
        decreases s@.len() - i,
    {
        let ghost prev = s@.take(i as int);
        if i > 0 {
            out.push(0x3a);
        }
        push_decimal(&mut out, s[i] as u32 as u64);
        i += 1;
        assert(s@.take(i as int).drop_last() =~= prev);
        if i == 1 {
            assert(out@ =~= joined_codes(s@.take(i as int)));
        } else {
            assert(out@ =~= joined_codes(s@.take(i as int)));
        }
    }
    assert(s@.take(s@.len() as int) =~= s@);
    out
}

fn kitty_key_of(event: &KeyEvent, mode: TermMode) -> (r: Option<KittyKey>)
    ensures
        r == kitty_key_for(*event, mode.bits),
{
    match kitty_functional_key(event) {
        Some(k) => Some(k),
        None => match kitty_character_code(event, mode) {
            Some(c) => Some(KittyKey::u(c)),
            None => match kitty_physical_key_code(event.physical_key) {
                Some(c) => Some(KittyKey::u(c)),
                None => None,
            },
        },
    }
}

fn kitty_text(event: &KeyEvent, mode: TermMode) -> (r: Option<Vec<u8>>)
    ensures
        match r {
            Some(v) => kitty_text_param(*event, mode.bits) == Some(v@),
            None => kitty_text_param(*event, mode.bits) is None,
        },
{
    if mode.contains(REPORT_ASSOCIATED_TEXT) {
        match &event.text {
            Some(t) => {
                let chars = crate::text::chars_of(t.as_str());
                if chars.len() > 0 {
                    Some(joined_codes_of(&chars))
                } else {
                    None
                }
            },
            None => None,
        }
    } else {
        None
    }
}

fn kitty_second(report_events: bool, mv: u8, event_type: u8) -> (r: Vec<u8>)
    ensures
        r@ == kitty_second_param(report_events, mv, event_type),
{
    let mut second: Vec<u8> = Vec::new();
    if report_events {
        second.push(0x3b);
        push_decimal(&mut second, mv as u64);
        second.push(0x3a);
        push_decimal(&mut second, event_type as u64);
    } else if mv != 1 {
        second.push(0x3b);
        push_decimal(&mut second, mv as u64);
    }
    assert(second@ =~= kitty_second_param(report_events, mv, event_type));
    second
}

fn kitty_assemble(key: KittyKey, second: &[u8], text: &Option<Vec<u8>>) -> (r: Vec<u8>)
    ensures
        r@ == kitty_sequence(
            key,
            second@,
            kitty_third_param(
                match text {
                    Some(t) => Some(t@),
                    None => None,
                },
            ),
        ),
{
    let mut third: Vec<u8> = Vec::new();
    match text {
        Some(t) => {
            third.push(0x3b);
            push_bytes(&mut third, t.as_slice());
        },
        None => {},
    }
    let mut out: Vec<u8> = Vec::new();
    out.push(0x1b);
    out.push(0x5b);
    if key.uses_short_csi_form() && second.len() == 0 && third.len() == 0 {
        out.push(key.suffix);
    } else {
        push_decimal(&mut out, key.code as u64);
        push_bytes(&mut out, second);
        push_bytes(&mut out, third.as_slice());
        out.push(key.suffix);
    }
    assert(out@ =~= kitty_sequence(key, second@, third@));
    out
}

fn kitty_key_to_bytes(event: &KeyEvent, modifiers: ModifiersState, mode: TermMode) -> (r: Option<Vec<u8>>)
    ensures
        match r {
            Some(v) => kitty_bytes(*event, modifiers, mode.bits) == Some(v@),
            None => kitty_bytes(*event, modifiers, mode.bits) is None,
        },
{
    let report_all = mode.contains(REPORT_ALL_KEYS_AS_ESC);
    let disambiguate = mode.contains(DISAMBIGUATE_ESC_CODES) || report_all;
    let report_events = mode.contains(REPORT_EVENT_TYPES);
    let has_modifier = modifiers.shift_key() || modifiers.alt_key() || modifiers.control_key()
        || modifiers.super_key();
    let event_type: u8 = match event.state {
        ElementState::Pressed => if event.repeat {
            2
        } else {
            1
        },
        ElementState::Released => 3,
    };
    if event_type != 1 && !report_events {
        return None;
    }
    let key = match kitty_key_of(event, mode) {
        Some(k) => k,
        None => return None,
    };
    let text = kitty_text(event, mode);
    let should_encode = report_all || text.is_some() || event_type != 1 || key.is_functional || (
    disambiguate && has_modifier);
    if !should_encode {
        return None;
    }
    let mv = kitty_modifier_value(modifiers);
    let second = kitty_second(report_events, mv, event_type);
    Some(kitty_assemble(key, second.as_slice(), &text))
}

fn modify_other_keycode(event: &KeyEvent) -> (r: Option<u32>)
    ensures
        r == mok_keycode(*event),
{
    match &event.logical_key {
        Key::Named(NamedKey::Enter) => Some(13),
        Key::Named(NamedKey::Tab) => Some(9),
        Key::Named(NamedKey::Backspace) => Some(127),
        Key::Named(NamedKey::Escape) => Some(27),
        Key::Named(NamedKey::Space) => Some(32),
        Key::Character(text) => {
            let chars = crate::text::chars_of(text.as_str());
            if chars.len() == 1 {
                Some(chars[0] as u32)
            } else {
                None
            }
        },
        _ => None,
    }
}

fn well_defined_ctrl_byte(event: &KeyEvent, modifiers: ModifiersState) -> (r: Option<u8>)
    ensures
        r == well_defined_ctrl(*event, modifiers),
{
    match &event.logical_key {
        Key::Character(text) => {
            let ch = match first_char(text) {
                Some(c) => c,
                None => return None,
            };
            if ('a' <= ch && ch <= 'z') || ('A' <= ch && ch <= 'Z') {
                let upper = to_ascii_upper(ch);
                return Some((upper as u8) - 0x41 + 1);
            }
            if ch == '@' {
                Some(0)
            } else if ch == '[' {
                Some(27)
            } else if ch == '\\' {
                Some(28)
            } else if ch == ']' {
                Some(29)
            } else if ch == '^' {
                Some(30)
            } else if ch == '_' {
                Some(31)
            } else if ch == ' ' {
                Some(0)
            } else {
                None
            }
        },
        Key::Named(NamedKey::Space) => if modifiers.control_key() {
            Some(0)
        } else {
            None
        },
        _ => None,
    }
}

fn modify_other_keys_to_bytes(event: &KeyEvent, modifiers: ModifiersState, mode: ModifyOtherKeys) -> (r: Option<Vec<u8>>)
    ensures
        match r {
            Some(v) => mok_bytes(*event, modifiers, mode) == Some(v@),
            None => mok_bytes(*event, modifiers, mode) is None,
        },
{
    let mod_val = modify_other_modifier_value(modifiers);
    if mod_val == 1 {
        return None;
    }
    let keycode = match modify_other_keycode(event) {
        Some(k) => k,
        None => return None,
    };
    if mode == ModifyOtherKeys::EnableExceptWellDefined {
        if modifiers.control_key() && !modifiers.alt_key() {
            if well_defined_ctrl_byte(event, modifiers).is_some() {
                return None;
            }
        }
        if modifiers.shift_key() && !modifiers.control_key() && !modifiers.alt_key() {
            return None;
        }
    }
    let mut out: Vec<u8> = Vec::new();
    out.push(0x1b);
    out.push(0x5b);
    push_decimal(&mut out, keycode as u64);
    out.push(0x3b);
    push_decimal(&mut out, mod_val as u64);
    out.push(0x75);
    assert(out@ =~= csi() + decimal(keycode as nat) + seq![0x3bu8] + decimal(mod_val as nat) + seq![0x75u8]);
    Some(out)
}

fn nonempty_text_to_bytes(event: &KeyEvent) -> (r: Option<Vec<u8>>)
    ensures
        match r {
            Some(v) => nonempty_text_bytes(*event) == Some(v@),
            None => nonempty_text_bytes(*event) is None,
        },
{
    match &event.text {
        Some(t) => if char_count(t) > 0 {
            Some(string_bytes(t))
        } else {
            None
        },
        None => None,
    }
}

fn logical_key_to_bytes(event: &KeyEvent, modifiers: ModifiersState, mode: TermMode) -> (r: Option<Vec<u8>>)
    ensures
        match r {
            Some(v) => logical_key_bytes(*event, modifiers, mode.bits) == Some(v@),
            None => logical_key_bytes(*event, modifiers, mode.bits) is None,
        },
{
    let ctrl = modifiers.control_key();
    let alt = modifiers.alt_key();
    let app_cursor = mode.contains(APP_CURSOR);
    match &event.logical_key {
        Key::Named(NamedKey::Enter) => match &event.text {
            Some(t) => Some(string_bytes(t)),
            None => {
                let v = bytes(&[0x0du8]);
                assert(v@ =~= seq![0x0du8]);
                Some(v)
            },
        },
        Key::Named(NamedKey::Backspace) => {
            let v = bytes(&[0x7fu8]);
            assert(v@ =~= seq![0x7fu8]);
            Some(v)
        },
        Key::Named(NamedKey::Tab) => {
            if modifiers.shift_key() {
                let v = bytes(&[0x1bu8, 0x5b, 0x5a]);
                assert(v@ =~= seq![0x1bu8, 0x5bu8, 0x5au8]);
                Some(v)
            } else {
                let v = bytes(&[0x09u8]);
                assert(v@ =~= seq![0x09u8]);
                Some(v)
            }
        },
        Key::Named(NamedKey::Escape) => {
            let v = bytes(&[0x1bu8]);
            assert(v@ =~= seq![0x1bu8]);
            Some(v)
        },
        Key::Named(NamedKey::Space) => {
            if ctrl {
                let v = bytes(&[0u8]);
                assert(v@ =~= seq![0u8]);
                Some(v)
            } else if alt {
                let v = bytes(&[0x1bu8, 0x20]);
                assert(v@ =~= seq![0x1bu8, 0x20u8]);
                Some(v)
            } else {
                let v = bytes(&[0x20u8]);
                assert(v@ =~= seq![0x20u8]);
                Some(v)
            }
        },
        Key::Named(NamedKey::ArrowUp) => Some(cursor_key(0x41, app_cursor)),
        Key::Named(NamedKey::ArrowDown) => Some(cursor_key(0x42, app_cursor)),
        Key::Named(NamedKey::ArrowRight) => Some(cursor_key(0x43, app_cursor)),
        Key::Named(NamedKey::ArrowLeft) => Some(cursor_key(0x44, app_cursor)),
        Key::Named(NamedKey::Home) => Some(cursor_key(0x48, app_cursor)),
        Key::Named(NamedKey::End) => Some(cursor_key(0x46, app_cursor)),
        Key::Named(NamedKey::Delete) => {
            let v = bytes(&[0x1bu8, 0x5b, 0x33, 0x7e]);
            assert(v@ =~= seq![0x1bu8, 0x5bu8, 0x33u8, 0x7eu8]);
            Some(v)
        },
        Key::Named(NamedKey::PageUp) => {
            let v = bytes(&[0x1bu8, 0x5b, 0x35, 0x7e]);
            assert(v@ =~= seq![0x1bu8, 0x5bu8, 0x35u8, 0x7eu8]);
            Some(v)
        },
        Key::Named(NamedKey::PageDown) => {
            let v = bytes(&[0x1bu8, 0x5b, 0x36, 0x7e]);
            assert(v@ =~= seq![0x1bu8, 0x5bu8, 0x36u8, 0x7eu8]);
            Some(v)
        },
        Key::Character(text) => {
            if ctrl {
                return ctrl_char(text);
            }
            let text_bytes = string_bytes(text);
            if alt && text_bytes.len() == 1 {
                let mut v: Vec<u8> = Vec::new();
                v.push(0x1b);
                push_bytes(&mut v, text_bytes.as_slice());
                assert(v@ =~= seq![0x1bu8] + encode_utf8(text@));
                return Some(v);
            }
            match nonempty_text_to_bytes(event) {
                Some(b) => Some(b),
                None => Some(text_bytes),
            }
        },
        _ => {
            if !ctrl && !alt {
                nonempty_text_to_bytes(event)
            } else {
                None
            }
        },
    }
}

/// Encode a key press for the PTY.
pub fn key_event_to_bytes(
    event: &KeyEvent,
    modifiers: ModifiersState,
    mode: TermMode,
    modify_other_keys: ModifyOtherKeys,
) -> (r: Option<Vec<u8>>)
    ensures
        match r {
            Some(v) => key_bytes(*event, modifiers, mode.bits, modify_other_keys) == Some(v@),
            None => key_bytes(*event, modifiers, mode.bits, modify_other_keys) is None,
        },
{
    if event.state != ElementState::Pressed && !(mode.contains(REPORT_EVENT_TYPES)
        && mode.contains(KITTY_KEYBOARD_PROTOCOL)) {
        return None;
    }
    if event.repeat && !mode.contains(REPORT_EVENT_TYPES) {
        return None;
    }
    if let Key::Dead = &event.logical_key {
        return None;
    }
    if mode.contains(KITTY_KEYBOARD_PROTOCOL) {
        if let Some(b) = kitty_key_to_bytes(event, modifiers, mode) {
            return Some(b);
        }
    }
    if modify_other_keys != ModifyOtherKeys::Reset {
        if let Some(b) = modify_other_keys_to_bytes(event, modifiers, modify_other_keys) {
            return Some(b);
        }
    }
    if let Some(b) = physical_key_to_bytes(event.physical_key, mode) {
        return Some(b);
    }
    logical_key_to_bytes(event, modifiers, mode)
}

} // verus!

verus! {

/// A key action as plain values.
pub enum KeyActionView {
    SendToTerminal(Seq<u8>),
    SelectTab(usize),
    NewTab,
    DuplicateTab,
    CloseTab,
    DetachTab,
    NextTab,
    PrevTab,
    RenameTab,
    Copy,
    Paste,
    ZoomIn,
    ZoomOut,
    ZoomReset,
    ClearScrollback,
    OpenSearch,
    OpenCommandPalette,
    SplitVertical,
    SplitHorizontal,
    ClosePane,
    FocusPaneLeft,
    FocusPaneRight,
    FocusPaneUp,
    FocusPaneDown,
    ScrollPageUp,
    ScrollPageDown,
    JumpPromptPrev,
    JumpPromptNext,
    ToggleFullscreen,
}

impl View for KeyAction {
    type V = KeyActionView;

    open spec fn view(&self) -> KeyActionView {
        match self {
            KeyAction::SendToTerminal(b) => KeyActionView::SendToTerminal(b@),
            KeyAction::SelectTab(n) => KeyActionView::SelectTab(*n),
            KeyAction::NewTab => KeyActionView::NewTab,
            KeyAction::DuplicateTab => KeyActionView::DuplicateTab,
            KeyAction::CloseTab => KeyActionView::CloseTab,
            KeyAction::DetachTab => KeyActionView::DetachTab,
            KeyAction::NextTab => KeyActionView::NextTab,
            KeyAction::PrevTab => KeyActionView::PrevTab,
            KeyAction::RenameTab => KeyActionView::RenameTab,
            KeyAction::Copy => KeyActionView::Copy,
            KeyAction::Paste => KeyActionView::Paste,
            KeyAction::ZoomIn => KeyActionView::ZoomIn,
            KeyAction::ZoomOut => KeyActionView::ZoomOut,
            KeyAction::ZoomReset => KeyActionView::ZoomReset,
            KeyAction::ClearScrollback => KeyActionView::ClearScrollback,
            KeyAction::OpenSearch => KeyActionView::OpenSearch,
            KeyAction::OpenCommandPalette => KeyActionView::OpenCommandPalette,
            KeyAction::SplitVertical => KeyActionView::SplitVertical,
            KeyAction::SplitHorizontal => KeyActionView::SplitHorizontal,
            KeyAction::ClosePane => KeyActionView::ClosePane,
            KeyAction::FocusPaneLeft => KeyActionView::FocusPaneLeft,
            KeyAction::FocusPaneRight => KeyActionView::FocusPaneRight,
            KeyAction::FocusPaneUp => KeyActionView::FocusPaneUp,
            KeyAction::FocusPaneDown => KeyActionView::FocusPaneDown,
            KeyAction::ScrollPageUp => KeyActionView::ScrollPageUp,
            KeyAction::ScrollPageDown => KeyActionView::ScrollPageDown,
            KeyAction::JumpPromptPrev => KeyActionView::JumpPromptPrev,
            KeyAction::JumpPromptNext => KeyActionView::JumpPromptNext,
            KeyAction::ToggleFullscreen => KeyActionView::ToggleFullscreen,
        }
    }
}

impl KeyAction {
    /// A copy of the action.
    pub fn duplicate(&self) -> (r: KeyAction)
        ensures
            r@ == self@,
    {
        match self {
            KeyAction::SendToTerminal(b) => KeyAction::SendToTerminal(vstd::slice::slice_to_vec(b.as_slice())),
            KeyAction::SelectTab(n) => KeyAction::SelectTab(*n),
            KeyAction::NewTab => KeyAction::NewTab,
            KeyAction::DuplicateTab => KeyAction::DuplicateTab,
            KeyAction::CloseTab => KeyAction::CloseTab,
            KeyAction::DetachTab => KeyAction::DetachTab,
            KeyAction::NextTab => KeyAction::NextTab,
            KeyAction::PrevTab => KeyAction::PrevTab,
            KeyAction::RenameTab => KeyAction::RenameTab,
            KeyAction::Copy => KeyAction::Copy,
            KeyAction::Paste => KeyAction::Paste,
            KeyAction::ZoomIn => KeyAction::ZoomIn,
            KeyAction::ZoomOut => KeyAction::ZoomOut,
            KeyAction::ZoomReset => KeyAction::ZoomReset,
            KeyAction::ClearScrollback => KeyAction::ClearScrollback,
            KeyAction::OpenSearch => KeyAction::OpenSearch,
            KeyAction::OpenCommandPalette => KeyAction::OpenCommandPalette,
            KeyAction::SplitVertical => KeyAction::SplitVertical,
            KeyAction::SplitHorizontal => KeyAction::SplitHorizontal,
            KeyAction::ClosePane => KeyAction::ClosePane,
            KeyAction::FocusPaneLeft => KeyAction::FocusPaneLeft,
            KeyAction::FocusPaneRight => KeyAction::FocusPaneRight,
            KeyAction::FocusPaneUp => KeyAction::FocusPaneUp,
            KeyAction::FocusPaneDown => KeyAction::FocusPaneDown,
            KeyAction::ScrollPageUp => KeyAction::ScrollPageUp,
            KeyAction::ScrollPageDown => KeyAction::ScrollPageDown,
            KeyAction::JumpPromptPrev => KeyAction::JumpPromptPrev,
            KeyAction::JumpPromptNext => KeyAction::JumpPromptNext,
            KeyAction::ToggleFullscreen => KeyAction::ToggleFullscreen,
        }
    }

    /// Whether two actions are the same.
    pub fn same_as(&self, other: &KeyAction) -> (r: bool)
        ensures
            r == (self@ == other@),
    {
        match (self, other) {
            (KeyAction::SendToTerminal(a), KeyAction::SendToTerminal(b)) => {
                let r = crate::text::bytes_equal(a.as_slice(), b.as_slice());
                r
            },
            (KeyAction::SelectTab(a), KeyAction::SelectTab(b)) => *a == *b,
            (KeyAction::NewTab, KeyAction::NewTab) => true,
            (KeyAction::DuplicateTab, KeyAction::DuplicateTab) => true,
            (KeyAction::CloseTab, KeyAction::CloseTab) => true,
            (KeyAction::DetachTab, KeyAction::DetachTab) => true,
            (KeyAction::NextTab, KeyAction::NextTab) => true,
            (KeyAction::PrevTab, KeyAction::PrevTab) => true,
            (KeyAction::RenameTab, KeyAction::RenameTab) => true,
            (KeyAction::Copy, KeyAction::Copy) => true,
            (KeyAction::Paste, KeyAction::Paste) => true,
            (KeyAction::ZoomIn, KeyAction::ZoomIn) => true,
            (KeyAction::ZoomOut, KeyAction::ZoomOut) => true,
            (KeyAction::ZoomReset, KeyAction::ZoomReset) => true,
            (KeyAction::ClearScrollback, KeyAction::ClearScrollback) => true,
            (KeyAction::OpenSearch, KeyAction::OpenSearch) => true,
            (KeyAction::OpenCommandPalette, KeyAction::OpenCommandPalette) => true,
            (KeyAction::SplitVertical, KeyAction::SplitVertical) => true,
            (KeyAction::SplitHorizontal, KeyAction::SplitHorizontal) => true,
            (KeyAction::ClosePane, KeyAction::ClosePane) => true,
            (KeyAction::FocusPaneLeft, KeyAction::FocusPaneLeft) => true,
            (KeyAction::FocusPaneRight, KeyAction::FocusPaneRight) => true,
            (KeyAction::FocusPaneUp, KeyAction::FocusPaneUp) => true,
            (KeyAction::FocusPaneDown, KeyAction::FocusPaneDown) => true,
            (KeyAction::ScrollPageUp, KeyAction::ScrollPageUp) => true,
            (KeyAction::ScrollPageDown, KeyAction::ScrollPageDown) => true,
            (KeyAction::JumpPromptPrev, KeyAction::JumpPromptPrev) => true,
            (KeyAction::JumpPromptNext, KeyAction::JumpPromptNext) => true,
            (KeyAction::ToggleFullscreen, KeyAction::ToggleFullscreen) => true,
            _ => false,
        }
    }
}

} // verus!

verus! {

/// What a key event does: a bound shortcut when a fresh press makes a bound
/// chord; otherwise (unless an IME composition is in progress) the bytes it sends.
pub open spec fn key_action_spec(
    e: KeyEvent,
    m: ModifiersState,
    bits: u32,
    mok: ModifyOtherKeys,
    ime_composing: bool,
    bindings: crate::keybindings::KeybindingsConfig,
) -> Option<KeyActionView> {
    let bound = if e.state == ElementState::Pressed && !e.repeat {
        crate::keybindings::first_action_for(
            crate::keybindings::parsed_bindings(crate::keybindings::binding_sources(bindings)),
            crate::keybindings::event_chord(e, m),
        )
    } else {
        None
    };
    if bound is Some {
        bound
    } else if ime_composing {
        None
    } else {
        match key_bytes(e, m, bits, mok) {
            Some(b) => Some(KeyActionView::SendToTerminal(b)),
            None => None,
        }
    }
}

/// The action a key event triggers.
pub fn key_event_to_action(
    event: &KeyEvent,
    modifiers: ModifiersState,
    mode: TermMode,
    modify_other_keys: ModifyOtherKeys,
    ime_composing: bool,
    bindings: &crate::keybindings::KeybindingsConfig,
) -> (r: Option<KeyAction>)
    ensures
        match r {
            Some(a) => key_action_spec(*event, modifiers, mode.bits, modify_other_keys, ime_composing, *bindings) == Some(a@),
            None => key_action_spec(*event, modifiers, mode.bits, modify_other_keys, ime_composing, *bindings) is None,
        },
{
    if event.state == ElementState::Pressed && !event.repeat {
        if let Some(action) = bindings.resolve(event, modifiers) {
            return Some(action);
        }
    }
    if ime_composing {
        return None;
    }
    match key_event_to_bytes(event, modifiers, mode, modify_other_keys) {
        Some(b) => Some(KeyAction::SendToTerminal(b)),
        None => None,
    }
}

/// Outside the Kitty keyboard protocol, a press of an arrow key (not on the
/// numeric keypad) sends the cursor sequence of its own direction, whatever
/// the modifiers and the modifyOtherKeys mode: `ESC [`, or `ESC O` in
/// application cursor mode, then `A` for up, `B` for down, `C` for right and
/// `D` for left. So the four arrows send four different sequences.
pub proof fn lemma_arrow_keys_send_their_own_direction(
    e: KeyEvent,
    m: ModifiersState,
    bits: u32,
    mok: ModifyOtherKeys,
)
    requires
        e.state == ElementState::Pressed,
        !e.repeat,
        e.physical_key == PhysicalKey::Other,
        !mode_has(bits, KITTY_KEYBOARD_PROTOCOL),
    ensures
        ({
            let lead: u8 = if mode_has(bits, APP_CURSOR) { 0x4f } else { 0x5b };
            &&& e.logical_key == Key::Named(NamedKey::ArrowUp) ==> key_bytes(e, m, bits, mok) == Some(
                seq![0x1bu8, lead, 0x41u8],
            )
            &&& e.logical_key == Key::Named(NamedKey::ArrowDown) ==> key_bytes(e, m, bits, mok) == Some(
                seq![0x1bu8, lead, 0x42u8],
            )
            &&& e.logical_key == Key::Named(NamedKey::ArrowRight) ==> key_bytes(e, m, bits, mok) == Some(
                seq![0x1bu8, lead, 0x43u8],
            )
            &&& e.logical_key == Key::Named(NamedKey::ArrowLeft) ==> key_bytes(e, m, bits, mok) == Some(
                seq![0x1bu8, lead, 0x44u8],
            )
        }),
{
}

} // verus!

//! The keyboard and terminal-mode values that input encoding reads: a key
//! event as the window system reports it, the held modifiers, and the
//! terminal's mode bits.

use vstd::prelude::*;

verus! {

/// Named (non-character) keys that the terminal distinguishes.
#[derive(Clone, Copy, PartialEq, Eq, Debug, Structural)]
pub enum NamedKey {
    Enter,
    Backspace,
    Tab,
    Escape,
    Space,
    ArrowUp,
    ArrowDown,
    ArrowLeft,
    ArrowRight,
    Home,
    End,
    Insert,
    Delete,
    PageUp,
    PageDown,
    CapsLock,
    ScrollLock,
    NumLock,
    PrintScreen,
    Pause,
    ContextMenu,
    F1,
    F2,
    F3,
    F4,
    F5,
    F6,
    F7,
    F8,
    F9,
    F10,
    F11,
    F12,
    F13,
    F14,
    F15,
    F16,
    F17,
    F18,
    F19,
    F20,
    F21,
    F22,
    F23,
    F24,
    F25,
    F26,
    F27,
    F28,
    F29,
    F30,
    F31,
    F32,
    F33,
    F34,
    F35,
    /// Any other named key.
    Other,
}

/// The logical meaning of a key press.
#[derive(Clone, Debug)]
pub enum Key {
    Named(NamedKey),
    Character(String),
    Dead,
    Unidentified,
}

/// The physical keys whose codes the encoders use (the numeric keypad).
#[derive(Clone, Copy, PartialEq, Eq, Debug, Structural)]
pub enum PhysicalKey {
    Numpad0,
    Numpad1,
    Numpad2,
    Numpad3,
    Numpad4,
    Numpad5,
    Numpad6,
    Numpad7,
    Numpad8,
    Numpad9,
    NumpadAdd,
    NumpadSubtract,
    NumpadMultiply,
    NumpadDivide,
    NumpadDecimal,
    NumpadEnter,
    NumpadEqual,
    Other,
}

#[derive(Clone, Copy, PartialEq, Eq, Debug, Structural)]
pub enum ElementState {
    Pressed,
    Released,
}

/// A keyboard event.
#[derive(Clone, Debug)]
pub struct KeyEvent {
    pub logical_key: Key,
    pub physical_key: PhysicalKey,
    pub state: ElementState,
    pub repeat: bool,
    /// Text the key press produces, after dead keys and IME.
    pub text: Option<String>,
}

/// The modifier keys held during an event.
#[derive(Clone, Copy, PartialEq, Eq, Debug, Structural)]
pub struct ModifiersState {
    pub shift: bool,
    pub control: bool,
    pub alt: bool,
    pub super_key: bool,
}

impl ModifiersState {
    pub fn empty() -> (r: Self)
        ensures
            !r.shift && !r.control && !r.alt && !r.super_key,
    {
        ModifiersState { shift: false, control: false, alt: false, super_key: false }
    }

    pub fn control() -> (r: Self)
        ensures
            !r.shift && r.control && !r.alt && !r.super_key,
    {
        ModifiersState { shift: false, control: true, alt: false, super_key: false }
    }

    pub fn shift() -> (r: Self)
        ensures
            r.shift && !r.control && !r.alt && !r.super_key,
    {
        ModifiersState { shift: true, control: false, alt: false, super_key: false }
    }

    pub fn shift_key(&self) -> (r: bool)
        ensures
            r == self.shift,
    {
        self.shift
    }

    pub fn control_key(&self) -> (r: bool)
        ensures
            r == self.control,
    {
        self.control
    }

    pub fn alt_key(&self) -> (r: bool)
        ensures
            r == self.alt,
    {
        self.alt
    }

    pub fn super_key(&self) -> (r: bool)
        ensures
            r == self.super_key,
    {
        self.super_key
    }
}

/// Terminal mode bits, numbered as the terminal core numbers them.
#[derive(Clone, Copy, PartialEq, Eq, Debug, Structural)]
pub struct TermMode {
    pub bits: u32,
}

pub const SHOW_CURSOR: u32 = 0x1;
pub const APP_CURSOR: u32 = 0x2;
pub const APP_KEYPAD: u32 = 0x4;
pub const MOUSE_REPORT_CLICK: u32 = 0x8;
pub const BRACKETED_PASTE: u32 = 0x10;
pub const SGR_MOUSE: u32 = 0x20;
pub const MOUSE_MOTION: u32 = 0x40;
pub const FOCUS_IN_OUT: u32 = 0x800;
pub const MOUSE_DRAG: u32 = 0x2000;
pub const DISAMBIGUATE_ESC_CODES: u32 = 0x40000;
pub const REPORT_EVENT_TYPES: u32 = 0x80000;
pub const REPORT_ALTERNATE_KEYS: u32 = 0x100000;
pub const REPORT_ALL_KEYS_AS_ESC: u32 = 0x200000;
pub const REPORT_ASSOCIATED_TEXT: u32 = 0x400000;
/// All the Kitty keyboard protocol flags together.
pub const KITTY_KEYBOARD_PROTOCOL: u32 = 0x7c0000;

/// Every bit of `flags` is set in `bits`.
pub open spec fn mode_has(bits: u32, flags: u32) -> bool {
    bits & flags == flags
}

impl TermMode {
    pub fn contains(&self, flags: u32) -> (r: bool)
        ensures
            r == mode_has(self.bits, flags),
    {
        self.bits & flags == flags
    }

    /// Some bit of `flags` is set.
    pub fn intersects(&self, flags: u32) -> (r: bool)
        ensures
            r == (self.bits & flags != 0),
    {
        self.bits & flags != 0
    }
}

} // verus!

//! Configurable key chords and the application actions they trigger.

use vstd::prelude::*;

use crate::input::{KeyAction, KeyActionView};
use crate::keys::{Key, KeyEvent, ModifiersState, NamedKey};
use crate::text::{
    ascii_lower, ascii_upper, chars_of, is_white_space, lower_chars, lowered,
    string_from_chars, to_ascii_upper, trim_back, trim_chars, trim_front, trimmed,
};

verus! {

/// Parsed key chord: modifiers + logical key identity.
#[derive(Debug, Clone)]
pub struct KeyChord {
    pub ctrl: bool,
    pub shift: bool,
    pub alt: bool,
    pub key: ChordKey,
}

#[derive(Debug, Clone, PartialEq, Eq)]
pub enum ChordKey {
    Character(String),
    Named(NamedKey),
}

/// A chord key with its characters as a sequence.
pub enum ChordKeyView {
    Character(Seq<char>),
    Named(NamedKey),
}

/// A chord as plain values.
pub struct KeyChordView {
    pub ctrl: bool,
    pub shift: bool,
    pub alt: bool,
    pub key: ChordKeyView,
}

impl View for ChordKey {
    type V = ChordKeyView;

    open spec fn view(&self) -> ChordKeyView {
        match self {
            ChordKey::Character(s) => ChordKeyView::Character(s@),
            ChordKey::Named(k) => ChordKeyView::Named(*k),
        }
    }
}

impl View for KeyChord {
    type V = KeyChordView;

    open spec fn view(&self) -> KeyChordView {
        KeyChordView { ctrl: self.ctrl, shift: self.shift, alt: self.alt, key: self.key@ }
    }
}

/// The key named by a lower-case chord key word.
pub open spec fn chord_key_named(s: Seq<char>) -> Option<NamedKey> {
    if s == seq!['t', 'a', 'b'] {
        Some(NamedKey::Tab)
    } else if s == seq!['i', 'n', 's', 'e', 'r', 't'] {
        Some(NamedKey::Insert)
    } else if s == seq!['e', 's', 'c', 'a', 'p', 'e'] {
        Some(NamedKey::Escape)
    } else if s == seq!['e', 's', 'c'] {
        Some(NamedKey::Escape)
    } else if s == seq!['e', 'n', 't', 'e', 'r'] {
        Some(NamedKey::Enter)
    } else if s == seq!['r', 'e', 't', 'u', 'r', 'n'] {
        Some(NamedKey::Enter)
    } else if s == seq!['b', 'a', 'c', 'k', 's', 'p', 'a', 'c', 'e'] {
        Some(NamedKey::Backspace)
    } else if s == seq!['d', 'e', 'l', 'e', 't', 'e'] {
        Some(NamedKey::Delete)
    } else if s == seq!['s', 'p', 'a', 'c', 'e'] {
        Some(NamedKey::Space)
    } else if s == seq!['p', 'a', 'g', 'e', 'u', 'p'] {
        Some(NamedKey::PageUp)
    } else if s == seq!['p', 'a', 'g', 'e', 'd', 'o', 'w', 'n'] {
        Some(NamedKey::PageDown)
    } else if s == seq!['h', 'o', 'm', 'e'] {
        Some(NamedKey::Home)
    } else if s == seq!['e', 'n', 'd'] {
        Some(NamedKey::End)
    } else if s == seq!['a', 'r', 'r', 'o', 'w', 'u', 'p'] {
        Some(NamedKey::ArrowUp)
    } else if s == seq!['u', 'p'] {
        Some(NamedKey::ArrowUp)
    } else if s == seq!['a', 'r', 'r', 'o', 'w', 'd', 'o', 'w', 'n'] {
        Some(NamedKey::ArrowDown)
    } else if s == seq!['d', 'o', 'w', 'n'] {
        Some(NamedKey::ArrowDown)
    } else if s == seq!['a', 'r', 'r', 'o', 'w', 'l', 'e', 'f', 't'] {
        Some(NamedKey::ArrowLeft)
    } else if s == seq!['l', 'e', 'f', 't'] {
        Some(NamedKey::ArrowLeft)
    } else if s == seq!['a', 'r', 'r', 'o', 'w', 'r', 'i', 'g', 'h', 't'] {
        Some(NamedKey::ArrowRight)
    } else if s == seq!['r', 'i', 'g', 'h', 't'] {
        Some(NamedKey::ArrowRight)
    } else if s == seq!['f', '1'] {
        Some(NamedKey::F1)
    } else if s == seq!['f', '2'] {
        Some(NamedKey::F2)
    } else if s == seq!['f', '3'] {
        Some(NamedKey::F3)
    } else if s == seq!['f', '4'] {
        Some(NamedKey::F4)
    } else if s == seq!['f', '5'] {
        Some(NamedKey::F5)
    } else if s == seq!['f', '6'] {
        Some(NamedKey::F6)
    } else if s == seq!['f', '7'] {
        Some(NamedKey::F7)
    } else if s == seq!['f', '8'] {
        Some(NamedKey::F8)
    } else if s == seq!['f', '9'] {
        Some(NamedKey::F9)
    } else if s == seq!['f', '1', '0'] {
        Some(NamedKey::F10)
    } else if s == seq!['f', '1', '1'] {
        Some(NamedKey::F11)
    } else if s == seq!['f', '1', '2'] {
        Some(NamedKey::F12)
    } else {
        None
    }
}

/// Text whose UTF-8 form is one byte: a single ASCII character.
pub open spec fn is_single_byte_text(s: Seq<char>) -> bool {
    s.len() == 1 && (s[0] as u32) < 0x80
}

/// The key of a (lower-cased) chord key word: a named key, or any one-byte text.
pub open spec fn chord_key_spec(s: Seq<char>) -> Option<ChordKeyView> {
    match chord_key_named(s) {
        Some(k) => Some(ChordKeyView::Named(k)),
        None => if is_single_byte_text(s) {
            Some(ChordKeyView::Character(s))
        } else {
            None
        },
    }
}

/// Index of the last `c` in `s`, or -1.
pub open spec fn last_index_of(s: Seq<char>, c: char) -> int
    decreases s.len(),
{
    if s.len() == 0 {
        -1
    } else if s.last() == c {
        s.len() - 1
    } else {
        last_index_of(s.drop_last(), c)
    }
}

/// The pieces of `s` between occurrences of `c` (`str::split`).
pub open spec fn split_on(s: Seq<char>, c: char) -> Seq<Seq<char>>
    decreases s.len(),
{
    let k = last_index_of(s, c);
    if k < 0 || k >= s.len() {
        seq![s]
    } else {
        split_on(s.take(k), c).push(s.skip(k + 1))
    }
}

/// What the parts of a chord say, scanned left to right: the modifiers seen,
/// how many non-modifier parts there were, and the last of them (lower-cased).
pub struct ChordScan {
    pub ctrl: bool,
    pub shift: bool,
    pub alt: bool,
    pub keys: nat,
    pub key: Seq<char>,
}

/// Scans chord parts; empty parts (after trimming) are skipped.
pub open spec fn chord_scan(parts: Seq<Seq<char>>) -> ChordScan
    decreases parts.len(),
{
    if parts.len() == 0 {
        ChordScan { ctrl: false, shift: false, alt: false, keys: 0, key: Seq::empty() }
    } else {
        let prev = chord_scan(parts.drop_last());
        let p = lowered(trimmed(parts.last()));
        if p.len() == 0 {
            prev
        } else if p == seq!['c', 't', 'r', 'l'] || p == seq!['c', 'o', 'n', 't', 'r', 'o', 'l'] {
            ChordScan { ctrl: true, ..prev }
        } else if p == seq!['s', 'h', 'i', 'f', 't'] {
            ChordScan { shift: true, ..prev }
        } else if p == seq!['a', 'l', 't'] {
            ChordScan { alt: true, ..prev }
        } else {
            ChordScan { keys: prev.keys + 1, key: p, ..prev }
        }
    }
}

/// A chord text such as `ctrl+shift+t`: `+`-separated parts, case-insensitive,
/// surrounding white space ignored; exactly one part must name the key.
pub open spec fn parse_chord(s: Seq<char>) -> Option<KeyChordView> {
    let scan = chord_scan(split_on(s, '+'));
    if scan.keys != 1 {
        None
    } else {
        match chord_key_spec(scan.key) {
            Some(k) => Some(KeyChordView { ctrl: scan.ctrl, shift: scan.shift, alt: scan.alt, key: k }),
            None => None,
        }
    }
}

/// Display name of a named key.
pub open spec fn named_key_label_spec(k: NamedKey) -> Seq<char> {
    match k {
        NamedKey::Tab => seq!['T', 'a', 'b'],
        NamedKey::Insert => seq!['I', 'n', 's', 'e', 'r', 't'],
        NamedKey::Escape => seq!['E', 's', 'c'],
        NamedKey::Enter => seq!['E', 'n', 't', 'e', 'r'],
        NamedKey::Backspace => seq!['B', 'a', 'c', 'k', 's', 'p', 'a', 'c', 'e'],
        NamedKey::Delete => seq!['D', 'e', 'l', 'e', 't', 'e'],
        NamedKey::Space => seq!['S', 'p', 'a', 'c', 'e'],
        NamedKey::PageUp => seq!['P', 'a', 'g', 'e', 'U', 'p'],
        NamedKey::PageDown => seq!['P', 'a', 'g', 'e', 'D', 'o', 'w', 'n'],
        NamedKey::Home => seq!['H', 'o', 'm', 'e'],
        NamedKey::End => seq!['E', 'n', 'd'],
        NamedKey::ArrowUp => seq!['U', 'p'],
        NamedKey::ArrowDown => seq!['D', 'o', 'w', 'n'],
        NamedKey::ArrowLeft => seq!['L', 'e', 'f', 't'],
        NamedKey::ArrowRight => seq!['R', 'i', 'g', 'h', 't'],
        NamedKey::F1 => seq!['F', '1'],
        NamedKey::F2 => seq!['F', '2'],
        NamedKey::F3 => seq!['F', '3'],
        NamedKey::F4 => seq!['F', '4'],
        NamedKey::F5 => seq!['F', '5'],
        NamedKey::F6 => seq!['F', '6'],
        NamedKey::F7 => seq!['F', '7'],
        NamedKey::F8 => seq!['F', '8'],
        NamedKey::F9 => seq!['F', '9'],
        NamedKey::F10 => seq!['F', '1', '0'],
        NamedKey::F11 => seq!['F', '1', '1'],
        NamedKey::F12 => seq!['F', '1', '2'],
        NamedKey::F13 => seq!['F', '1', '3'],
        NamedKey::F14 => seq!['F', '1', '4'],
        NamedKey::F15 => seq!['F', '1', '5'],
        NamedKey::F16 => seq!['F', '1', '6'],
        NamedKey::F17 => seq!['F', '1', '7'],
        NamedKey::F18 => seq!['F', '1', '8'],
        NamedKey::F19 => seq!['F', '1', '9'],
        NamedKey::F20 => seq!['F', '2', '0'],
        NamedKey::F21 => seq!['F', '2', '1'],
        NamedKey::F22 => seq!['F', '2', '2'],
        NamedKey::F23 => seq!['F', '2', '3'],
        NamedKey::F24 => seq!['F', '2', '4'],
        NamedKey::F25 => seq!['F', '2', '5'],
        NamedKey::F26 => seq!['F', '2', '6'],
        NamedKey::F27 => seq!['F', '2', '7'],
        NamedKey::F28 => seq!['F', '2', '8'],
        NamedKey::F29 => seq!['F', '2', '9'],
        NamedKey::F30 => seq!['F', '3', '0'],
        NamedKey::F31 => seq!['F', '3', '1'],
        NamedKey::F32 => seq!['F', '3', '2'],
        NamedKey::F33 => seq!['F', '3', '3'],
        NamedKey::F34 => seq!['F', '3', '4'],
        NamedKey::F35 => seq!['F', '3', '5'],
        NamedKey::CapsLock => seq!['C', 'a', 'p', 's', 'L', 'o', 'c', 'k'],
        NamedKey::ScrollLock => seq!['S', 'c', 'r', 'o', 'l', 'l', 'L', 'o', 'c', 'k'],
        NamedKey::NumLock => seq!['N', 'u', 'm', 'L', 'o', 'c', 'k'],
        NamedKey::PrintScreen => seq!['P', 'r', 'i', 'n', 't', 'S', 'c', 'r', 'e', 'e', 'n'],
        NamedKey::Pause => seq!['P', 'a', 'u', 's', 'e'],
        NamedKey::ContextMenu => seq!['C', 'o', 'n', 't', 'e', 'x', 't', 'M', 'e', 'n', 'u'],
        NamedKey::Other => seq!['O', 't', 'h', 'e', 'r'],
    }
}

/// Display form of a chord key: one-byte text upper-cased, other text as is.
pub open spec fn chord_key_label(k: ChordKeyView) -> Seq<char> {
    match k {
        ChordKeyView::Character(s) => if is_single_byte_text(s) {
            s.map_values(|c: char| ascii_upper(c))
        } else {
            s
        },
        ChordKeyView::Named(n) => named_key_label_spec(n),
    }
}

/// `Ctrl+`, `Alt+`, `Shift+` (those held, in that order), then the key.
pub open spec fn chord_label(c: KeyChordView) -> Seq<char> {
    (if c.ctrl { seq!['C', 't', 'r', 'l', '+'] } else { Seq::empty() }) + (if c.alt {
        seq!['A', 'l', 't', '+']
    } else {
        Seq::empty()
    }) + (if c.shift { seq!['S', 'h', 'i', 'f', 't', '+'] } else { Seq::empty() })
        + chord_key_label(c.key)
}

/// The chord an event makes: its modifiers and its key, character keys lower-cased.
pub open spec fn event_chord(e: KeyEvent, m: ModifiersState) -> KeyChordView {
    KeyChordView {
        ctrl: m.control,
        shift: m.shift,
        alt: m.alt,
        key: match e.logical_key {
            Key::Character(t) => ChordKeyView::Character(lowered(t@)),
            Key::Named(n) => ChordKeyView::Named(n),
            _ => ChordKeyView::Character(Seq::empty()),
        },
    }
}

#[derive(Debug, Clone)]
pub struct KeybindingsConfig {
    pub new_tab: String,
    pub duplicate_tab: String,
    pub close_tab: String,
    pub detach_tab: String,
    pub next_tab: String,
    pub prev_tab: String,
    pub rename_tab: String,
    pub copy: String,
    pub copy_insert: String,
    pub paste: String,
    pub paste_insert: String,
    pub clear_scrollback: String,
    pub zoom_in: String,
    pub zoom_out: String,
    pub zoom_reset: String,
    pub open_search: String,
    pub open_palette: String,
    pub select_tab_1: String,
    pub select_tab_2: String,
    pub select_tab_3: String,
    pub select_tab_4: String,
    pub select_tab_5: String,
    pub select_tab_6: String,
    pub select_tab_7: String,
    pub select_tab_8: String,
    pub select_tab_9: String,
    pub split_vertical: String,
    pub split_horizontal: String,
    pub close_pane: String,
    pub focus_pane_left: String,
    pub focus_pane_right: String,
    pub focus_pane_up: String,
    pub focus_pane_down: String,
    pub scroll_page_up: String,
    pub scroll_page_down: String,
    pub jump_prompt_prev: String,
    pub jump_prompt_next: String,
    pub toggle_fullscreen: String,
}

fn default_new_tab() -> (r: String)
    ensures
        r@ == "ctrl+shift+t"@,
{
    "ctrl+shift+t".to_owned()
}

fn default_duplicate_tab() -> (r: String)
    ensures
        r@ == "ctrl+shift+u"@,
{
    "ctrl+shift+u".to_owned()
}

fn default_close_tab() -> (r: String)
    ensures
        r@ == "ctrl+shift+w"@,
{
    "ctrl+shift+w".to_owned()
}

fn default_detach_tab() -> (r: String)
    ensures
        r@ == "ctrl+shift+n"@,
{
    "ctrl+shift+n".to_owned()
}

fn default_next_tab() -> (r: String)
    ensures
        r@ == "ctrl+tab"@,
{
    "ctrl+tab".to_owned()
}

fn default_prev_tab() -> (r: String)
    ensures
        r@ == "ctrl+shift+tab"@,
{
    "ctrl+shift+tab".to_owned()
}

fn default_rename_tab() -> (r: String)
    ensures
        r@ == "f2"@,
{
    "f2".to_owned()
}

fn default_copy() -> (r: String)
    ensures
        r@ == "ctrl+shift+c"@,
{
    "ctrl+shift+c".to_owned()
}

fn default_copy_insert() -> (r: String)
    ensures
        r@ == "ctrl+shift+insert"@,
{
    "ctrl+shift+insert".to_owned()
}

fn default_paste() -> (r: String)
    ensures
        r@ == "ctrl+shift+v"@,
{
    "ctrl+shift+v".to_owned()
}

fn default_paste_insert() -> (r: String)
    ensures
        r@ == "shift+insert"@,
{
    "shift+insert".to_owned()
}

fn default_clear_scrollback() -> (r: String)
    ensures
        r@ == "ctrl+shift+k"@,
{
    "ctrl+shift+k".to_owned()
}

fn default_zoom_in() -> (r: String)
    ensures
        r@ == "ctrl+="@,
{
    "ctrl+=".to_owned()
}

fn default_zoom_out() -> (r: String)
    ensures
        r@ == "ctrl+-"@,
{
    "ctrl+-".to_owned()
}

fn default_zoom_reset() -> (r: String)
    ensures
        r@ == "ctrl+0"@,
{
    "ctrl+0".to_owned()
}

fn default_open_search() -> (r: String)
    ensures
        r@ == "ctrl+shift+f"@,
{
    "ctrl+shift+f".to_owned()
}

fn default_open_palette() -> (r: String)
    ensures
        r@ == "ctrl+shift+p"@,
{
    "ctrl+shift+p".to_owned()
}

fn default_select_tab_1() -> (r: String)
    ensures
        r@ == "ctrl+1"@,
{
    "ctrl+1".to_owned()
}

fn default_select_tab_2() -> (r: String)
    ensures
        r@ == "ctrl+2"@,
{
    "ctrl+2".to_owned()
}

fn default_select_tab_3() -> (r: String)
    ensures
        r@ == "ctrl+3"@,
{
    "ctrl+3".to_owned()
}

fn default_select_tab_4() -> (r: String)
    ensures
        r@ == "ctrl+4"@,
{
    "ctrl+4".to_owned()
}

fn default_select_tab_5() -> (r: String)
    ensures
        r@ == "ctrl+5"@,
{
    "ctrl+5".to_owned()
}

fn default_select_tab_6() -> (r: String)
    ensures
        r@ == "ctrl+6"@,
{
    "ctrl+6".to_owned()
}

fn default_select_tab_7() -> (r: String)
    ensures
        r@ == "ctrl+7"@,
{
    "ctrl+7".to_owned()
}

fn default_select_tab_8() -> (r: String)
    ensures
        r@ == "ctrl+8"@,
{
    "ctrl+8".to_owned()
}

fn default_select_tab_9() -> (r: String)
    ensures
        r@ == "ctrl+9"@,
{
    "ctrl+9".to_owned()
}

fn default_split_vertical() -> (r: String)
    ensures
        r@ == "ctrl+shift+d"@,
{
    "ctrl+shift+d".to_owned()
}

fn default_split_horizontal() -> (r: String)
    ensures
        r@ == "ctrl+shift+e"@,
{
    "ctrl+shift+e".to_owned()
}

fn default_close_pane() -> (r: String)
    ensures
        r@ == "ctrl+shift+q"@,
{
    "ctrl+shift+q".to_owned()
}

fn default_focus_pane_left() -> (r: String)
    ensures
        r@ == "ctrl+shift+left"@,
{
    "ctrl+shift+left".to_owned()
}

fn default_focus_pane_right() -> (r: String)
    ensures
        r@ == "ctrl+shift+right"@,
{
    "ctrl+shift+right".to_owned()
}

fn default_focus_pane_up() -> (r: String)
    ensures
        r@ == "ctrl+shift+up"@,
{
    "ctrl+shift+up".to_owned()
}

fn default_focus_pane_down() -> (r: String)
    ensures
        r@ == "ctrl+shift+down"@,
{
    "ctrl+shift+down".to_owned()
}

fn default_scroll_page_up() -> (r: String)
    ensures
        r@ == "shift+pageup"@,
{
    "shift+pageup".to_owned()
}

fn default_scroll_page_down() -> (r: String)
    ensures
        r@ == "shift+pagedown"@,
{
    "shift+pagedown".to_owned()
}

fn default_jump_prompt_prev() -> (r: String)
    ensures
        r@ == "alt+shift+up"@,
{
    "alt+shift+up".to_owned()
}

fn default_jump_prompt_next() -> (r: String)
    ensures
        r@ == "alt+shift+down"@,
{
    "alt+shift+down".to_owned()
}

fn default_toggle_fullscreen() -> (r: String)
    ensures
        r@ == "f11"@,
{
    "f11".to_owned()
}

impl Default for KeybindingsConfig {
    fn default() -> (r: Self)
        ensures
            r.new_tab@ == "ctrl+shift+t"@,
            r.duplicate_tab@ == "ctrl+shift+u"@,
            r.close_tab@ == "ctrl+shift+w"@,
            r.detach_tab@ == "ctrl+shift+n"@,
            r.next_tab@ == "ctrl+tab"@,
            r.prev_tab@ == "ctrl+shift+tab"@,
            r.rename_tab@ == "f2"@,
            r.copy@ == "ctrl+shift+c"@,
            r.copy_insert@ == "ctrl+shift+insert"@,
            r.paste@ == "ctrl+shift+v"@,
            r.paste_insert@ == "shift+insert"@,
            r.clear_scrollback@ == "ctrl+shift+k"@,
            r.zoom_in@ == "ctrl+="@,
            r.zoom_out@ == "ctrl+-"@,
            r.zoom_reset@ == "ctrl+0"@,
            r.open_search@ == "ctrl+shift+f"@,
            r.open_palette@ == "ctrl+shift+p"@,
            r.select_tab_1@ == "ctrl+1"@,
            r.select_tab_2@ == "ctrl+2"@,
            r.select_tab_3@ == "ctrl+3"@,
            r.select_tab_4@ == "ctrl+4"@,
            r.select_tab_5@ == "ctrl+5"@,
            r.select_tab_6@ == "ctrl+6"@,
            r.select_tab_7@ == "ctrl+7"@,
            r.select_tab_8@ == "ctrl+8"@,
            r.select_tab_9@ == "ctrl+9"@,
            r.split_vertical@ == "ctrl+shift+d"@,
            r.split_horizontal@ == "ctrl+shift+e"@,
            r.close_pane@ == "ctrl+shift+q"@,
            r.focus_pane_left@ == "ctrl+shift+left"@,
            r.focus_pane_right@ == "ctrl+shift+right"@,
            r.focus_pane_up@ == "ctrl+shift+up"@,
            r.focus_pane_down@ == "ctrl+shift+down"@,
            r.scroll_page_up@ == "shift+pageup"@,
            r.scroll_page_down@ == "shift+pagedown"@,
            r.jump_prompt_prev@ == "alt+shift+up"@,
            r.jump_prompt_next@ == "alt+shift+down"@,
            r.toggle_fullscreen@ == "f11"@,
    {
        KeybindingsConfig {
            new_tab: default_new_tab(),
            duplicate_tab: default_duplicate_tab(),
            close_tab: default_close_tab(),
            detach_tab: default_detach_tab(),
            next_tab: default_next_tab(),
            prev_tab: default_prev_tab(),
            rename_tab: default_rename_tab(),
            copy: default_copy(),
            copy_insert: default_copy_insert(),
            paste: default_paste(),
            paste_insert: default_paste_insert(),
            clear_scrollback: default_clear_scrollback(),
            zoom_in: default_zoom_in(),
            zoom_out: default_zoom_out(),
            zoom_reset: default_zoom_reset(),
            open_search: default_open_search(),
            open_palette: default_open_palette(),
            select_tab_1: default_select_tab_1(),
            select_tab_2: default_select_tab_2(),
            select_tab_3: default_select_tab_3(),
            select_tab_4: default_select_tab_4(),
            select_tab_5: default_select_tab_5(),
            select_tab_6: default_select_tab_6(),
            select_tab_7: default_select_tab_7(),
            select_tab_8: default_select_tab_8(),
            select_tab_9: default_select_tab_9(),
            split_vertical: default_split_vertical(),
            split_horizontal: default_split_horizontal(),
            close_pane: default_close_pane(),
            focus_pane_left: default_focus_pane_left(),
            focus_pane_right: default_focus_pane_right(),
            focus_pane_up: default_focus_pane_up(),
            focus_pane_down: default_focus_pane_down(),
            scroll_page_up: default_scroll_page_up(),
            scroll_page_down: default_scroll_page_down(),
            jump_prompt_prev: default_jump_prompt_prev(),
            jump_prompt_next: default_jump_prompt_next(),
            toggle_fullscreen: default_toggle_fullscreen(),
        }
    }
}

/// The bound chord texts with their actions, in the order bindings are tried.
pub open spec fn binding_sources(c: KeybindingsConfig) -> Seq<(Seq<char>, KeyActionView)> {
    seq![
        (c.new_tab@, KeyActionView::NewTab),
        (c.duplicate_tab@, KeyActionView::DuplicateTab),
        (c.close_tab@, KeyActionView::CloseTab),
        (c.detach_tab@, KeyActionView::DetachTab),
        (c.next_tab@, KeyActionView::NextTab),
        (c.prev_tab@, KeyActionView::PrevTab),
        (c.rename_tab@, KeyActionView::RenameTab),
        (c.copy@, KeyActionView::Copy),
        (c.copy_insert@, KeyActionView::Copy),
        (c.paste@, KeyActionView::Paste),
        (c.paste_insert@, KeyActionView::Paste),
        (c.clear_scrollback@, KeyActionView::ClearScrollback),
        (c.zoom_in@, KeyActionView::ZoomIn),
        (c.zoom_out@, KeyActionView::ZoomOut),
        (c.zoom_reset@, KeyActionView::ZoomReset),
        (c.open_search@, KeyActionView::OpenSearch),
        (c.open_palette@, KeyActionView::OpenCommandPalette),
        (c.select_tab_1@, KeyActionView::SelectTab(1)),
        (c.select_tab_2@, KeyActionView::SelectTab(2)),
        (c.select_tab_3@, KeyActionView::SelectTab(3)),
        (c.select_tab_4@, KeyActionView::SelectTab(4)),
        (c.select_tab_5@, KeyActionView::SelectTab(5)),
        (c.select_tab_6@, KeyActionView::SelectTab(6)),
        (c.select_tab_7@, KeyActionView::SelectTab(7)),
        (c.select_tab_8@, KeyActionView::SelectTab(8)),
        (c.select_tab_9@, KeyActionView::SelectTab(9)),
        (c.split_vertical@, KeyActionView::SplitVertical),
        (c.split_horizontal@, KeyActionView::SplitHorizontal),
        (c.close_pane@, KeyActionView::ClosePane),
        (c.focus_pane_left@, KeyActionView::FocusPaneLeft),
        (c.focus_pane_right@, KeyActionView::FocusPaneRight),
        (c.focus_pane_up@, KeyActionView::FocusPaneUp),
        (c.focus_pane_down@, KeyActionView::FocusPaneDown),
        (c.scroll_page_up@, KeyActionView::ScrollPageUp),
        (c.scroll_page_down@, KeyActionView::ScrollPageDown),
        (c.jump_prompt_prev@, KeyActionView::JumpPromptPrev),
        (c.jump_prompt_next@, KeyActionView::JumpPromptNext),
        (c.toggle_fullscreen@, KeyActionView::ToggleFullscreen),
    ]
}

/// The bindings whose chord text parses, in order.
pub open spec fn parsed_bindings(src: Seq<(Seq<char>, KeyActionView)>) -> Seq<(KeyChordView, KeyActionView)>
    decreases src.len(),
{
    if src.len() == 0 {
        Seq::empty()
    } else {
        let prev = parsed_bindings(src.drop_last());
        match parse_chord(src.last().0) {
            Some(ch) => prev.push((ch, src.last().1)),
            None => prev,
        }
    }
}

/// The action of the first binding whose chord is `chord`.
pub open spec fn first_action_for(b: Seq<(KeyChordView, KeyActionView)>, chord: KeyChordView) -> Option<KeyActionView>
    decreases b.len(),
{
    if b.len() == 0 {
        None
    } else if b[0].0 == chord {
        Some(b[0].1)
    } else {
        first_action_for(b.drop_first(), chord)
    }
}

/// The chord of the first binding for `action`.
pub open spec fn first_chord_for(b: Seq<(KeyChordView, KeyActionView)>, action: KeyActionView) -> Option<KeyChordView>
    decreases b.len(),
{
    if b.len() == 0 {
        None
    } else if b[0].1 == action {
        Some(b[0].0)
    } else {
        first_chord_for(b.drop_first(), action)
    }
}

fn chord_key_named_exec(s: &[char]) -> (r: Option<NamedKey>)
    ensures
        r == chord_key_named(s@),
{
    let w = ['t', 'a', 'b'];
    assert(w@ =~= seq!['t', 'a', 'b']);
    if crate::text::chars_equal(s, &w) {
        return Some(NamedKey::Tab);
    }
    let w = ['i', 'n', 's', 'e', 'r', 't'];
    assert(w@ =~= seq!['i', 'n', 's', 'e', 'r', 't']);
    if crate::text::chars_equal(s, &w) {
        return Some(NamedKey::Insert);
    }
    let w = ['e', 's', 'c', 'a', 'p', 'e'];
    assert(w@ =~= seq!['e', 's', 'c', 'a', 'p', 'e']);
    if crate::text::chars_equal(s, &w) {
        return Some(NamedKey::Escape);
    }
    let w = ['e', 's', 'c'];
    assert(w@ =~= seq!['e', 's', 'c']);
    if crate::text::chars_equal(s, &w) {
        return Some(NamedKey::Escape);
    }
    let w = ['e', 'n', 't', 'e', 'r'];
    assert(w@ =~= seq!['e', 'n', 't', 'e', 'r']);
    if crate::text::chars_equal(s, &w) {
        return Some(NamedKey::Enter);
    }
    let w = ['r', 'e', 't', 'u', 'r', 'n'];
    assert(w@ =~= seq!['r', 'e', 't', 'u', 'r', 'n']);
    if crate::text::chars_equal(s, &w) {
        return Some(NamedKey::Enter);
    }
    let w = ['b', 'a', 'c', 'k', 's', 'p', 'a', 'c', 'e'];
    assert(w@ =~= seq!['b', 'a', 'c', 'k', 's', 'p', 'a', 'c', 'e']);
    if crate::text::chars_equal(s, &w) {
        return Some(NamedKey::Backspace);
    }
    let w = ['d', 'e', 'l', 'e', 't', 'e'];
    assert(w@ =~= seq!['d', 'e', 'l', 'e', 't', 'e']);
    if crate::text::chars_equal(s, &w) {
        return Some(NamedKey::Delete);
    }
    let w = ['s', 'p', 'a', 'c', 'e'];
    assert(w@ =~= seq!['s', 'p', 'a', 'c', 'e']);
    if crate::text::chars_equal(s, &w) {
        return Some(NamedKey::Space);
    }
    let w = ['p', 'a', 'g', 'e', 'u', 'p'];
    assert(w@ =~= seq!['p', 'a', 'g', 'e', 'u', 'p']);
    if crate::text::chars_equal(s, &w) {
        return Some(NamedKey::PageUp);
    }
    let w = ['p', 'a', 'g', 'e', 'd', 'o', 'w', 'n'];
    assert(w@ =~= seq!['p', 'a', 'g', 'e', 'd', 'o', 'w', 'n']);
    if crate::text::chars_equal(s, &w) {
        return Some(NamedKey::PageDown);
    }
    let w = ['h', 'o', 'm', 'e'];
    assert(w@ =~= seq!['h', 'o', 'm', 'e']);
    if crate::text::chars_equal(s, &w) {
        return Some(NamedKey::Home);
    }
    let w = ['e', 'n', 'd'];
    assert(w@ =~= seq!['e', 'n', 'd']);
    if crate::text::chars_equal(s, &w) {
        return Some(NamedKey::End);
    }
    let w = ['a', 'r', 'r', 'o', 'w', 'u', 'p'];
    assert(w@ =~= seq!['a', 'r', 'r', 'o', 'w', 'u', 'p']);
    if crate::text::chars_equal(s, &w) {
        return Some(NamedKey::ArrowUp);
    }
    let w = ['u', 'p'];
    assert(w@ =~= seq!['u', 'p']);
    if crate::text::chars_equal(s, &w) {
        return Some(NamedKey::ArrowUp);
    }
    let w = ['a', 'r', 'r', 'o', 'w', 'd', 'o', 'w', 'n'];
    assert(w@ =~= seq!['a', 'r', 'r', 'o', 'w', 'd', 'o', 'w', 'n']);
    if crate::text::chars_equal(s, &w) {
        return Some(NamedKey::ArrowDown);
    }
    let w = ['d', 'o', 'w', 'n'];
    assert(w@ =~= seq!['d', 'o', 'w', 'n']);
    if crate::text::chars_equal(s, &w) {
        return Some(NamedKey::ArrowDown);
    }
    let w = ['a', 'r', 'r', 'o', 'w', 'l', 'e', 'f', 't'];
    assert(w@ =~= seq!['a', 'r', 'r', 'o', 'w', 'l', 'e', 'f', 't']);
    if crate::text::chars_equal(s, &w) {
        return Some(NamedKey::ArrowLeft);
    }
    let w = ['l', 'e', 'f', 't'];
    assert(w@ =~= seq!['l', 'e', 'f', 't']);
    if crate::text::chars_equal(s, &w) {
        return Some(NamedKey::ArrowLeft);
    }
    let w = ['a', 'r', 'r', 'o', 'w', 'r', 'i', 'g', 'h', 't'];
    assert(w@ =~= seq!['a', 'r', 'r', 'o', 'w', 'r', 'i', 'g', 'h', 't']);
    if crate::text::chars_equal(s, &w) {
        return Some(NamedKey::ArrowRight);
    }
    let w = ['r', 'i', 'g', 'h', 't'];
    assert(w@ =~= seq!['r', 'i', 'g', 'h', 't']);
    if crate::text::chars_equal(s, &w) {
        return Some(NamedKey::ArrowRight);
    }
    let w = ['f', '1'];
    assert(w@ =~= seq!['f', '1']);
    if crate::text::chars_equal(s, &w) {
        return Some(NamedKey::F1);
    }
    let w = ['f', '2'];
    assert(w@ =~= seq!['f', '2']);
    if crate::text::chars_equal(s, &w) {
        return Some(NamedKey::F2);
    }
    let w = ['f', '3'];
    assert(w@ =~= seq!['f', '3']);
    if crate::text::chars_equal(s, &w) {
        return Some(NamedKey::F3);
    }
    let w = ['f', '4'];
    assert(w@ =~= seq!['f', '4']);
    if crate::text::chars_equal(s, &w) {
        return Some(NamedKey::F4);
    }
    let w = ['f', '5'];
    assert(w@ =~= seq!['f', '5']);
    if crate::text::chars_equal(s, &w) {
        return Some(NamedKey::F5);
    }
    let w = ['f', '6'];
    assert(w@ =~= seq!['f', '6']);
    if crate::text::chars_equal(s, &w) {
        return Some(NamedKey::F6);
    }
    let w = ['f', '7'];
    assert(w@ =~= seq!['f', '7']);
    if crate::text::chars_equal(s, &w) {
        return Some(NamedKey::F7);
    }
    let w = ['f', '8'];
    assert(w@ =~= seq!['f', '8']);
    if crate::text::chars_equal(s, &w) {
        return Some(NamedKey::F8);
    }
    let w = ['f', '9'];
    assert(w@ =~= seq!['f', '9']);
    if crate::text::chars_equal(s, &w) {
        return Some(NamedKey::F9);
    }
    let w = ['f', '1', '0'];
    assert(w@ =~= seq!['f', '1', '0']);
    if crate::text::chars_equal(s, &w) {
        return Some(NamedKey::F10);
    }
    let w = ['f', '1', '1'];
    assert(w@ =~= seq!['f', '1', '1']);
    if crate::text::chars_equal(s, &w) {
        return Some(NamedKey::F11);
    }
    let w = ['f', '1', '2'];
    assert(w@ =~= seq!['f', '1', '2']);
    if crate::text::chars_equal(s, &w) {
        return Some(NamedKey::F12);
    }
    None
}

fn named_key_label(key: NamedKey) -> (r: String)
    ensures
        r@ == named_key_label_spec(key),
{
    let label: &[char] = match key {
        NamedKey::Tab => &['T', 'a', 'b'],
        NamedKey::Insert => &['I', 'n', 's', 'e', 'r', 't'],
        NamedKey::Escape => &['E', 's', 'c'],
        NamedKey::Enter => &['E', 'n', 't', 'e', 'r'],
        NamedKey::Backspace => &['B', 'a', 'c', 'k', 's', 'p', 'a', 'c', 'e'],
        NamedKey::Delete => &['D', 'e', 'l', 'e', 't', 'e'],
        NamedKey::Space => &['S', 'p', 'a', 'c', 'e'],
        NamedKey::PageUp => &['P', 'a', 'g', 'e', 'U', 'p'],
        NamedKey::PageDown => &['P', 'a', 'g', 'e', 'D', 'o', 'w', 'n'],
        NamedKey::Home => &['H', 'o', 'm', 'e'],
        NamedKey::End => &['E', 'n', 'd'],
        NamedKey::ArrowUp => &['U', 'p'],
        NamedKey::ArrowDown => &['D', 'o', 'w', 'n'],
        NamedKey::ArrowLeft => &['L', 'e', 'f', 't'],
        NamedKey::ArrowRight => &['R', 'i', 'g', 'h', 't'],
        NamedKey::F1 => &['F', '1'],
        NamedKey::F2 => &['F', '2'],
        NamedKey::F3 => &['F', '3'],
        NamedKey::F4 => &['F', '4'],
        NamedKey::F5 => &['F', '5'],
        NamedKey::F6 => &['F', '6'],
        NamedKey::F7 => &['F', '7'],
        NamedKey::F8 => &['F', '8'],
        NamedKey::F9 => &['F', '9'],
        NamedKey::F10 => &['F', '1', '0'],
        NamedKey::F11 => &['F', '1', '1'],
        NamedKey::F12 => &['F', '1', '2'],
        NamedKey::F13 => &['F', '1', '3'],
        NamedKey::F14 => &['F', '1', '4'],
        NamedKey::F15 => &['F', '1', '5'],
        NamedKey::F16 => &['F', '1', '6'],
        NamedKey::F17 => &['F', '1', '7'],
        NamedKey::F18 => &['F', '1', '8'],
        NamedKey::F19 => &['F', '1', '9'],
        NamedKey::F20 => &['F', '2', '0'],
        NamedKey::F21 => &['F', '2', '1'],
        NamedKey::F22 => &['F', '2', '2'],
        NamedKey::F23 => &['F', '2', '3'],
        NamedKey::F24 => &['F', '2', '4'],
        NamedKey::F25 => &['F', '2', '5'],
        NamedKey::F26 => &['F', '2', '6'],
        NamedKey::F27 => &['F', '2', '7'],
        NamedKey::F28 => &['F', '2', '8'],
        NamedKey::F29 => &['F', '2', '9'],
        NamedKey::F30 => &['F', '3', '0'],
        NamedKey::F31 => &['F', '3', '1'],
        NamedKey::F32 => &['F', '3', '2'],
        NamedKey::F33 => &['F', '3', '3'],
        NamedKey::F34 => &['F', '3', '4'],
        NamedKey::F35 => &['F', '3', '5'],
        NamedKey::CapsLock => &['C', 'a', 'p', 's', 'L', 'o', 'c', 'k'],
        NamedKey::ScrollLock => &['S', 'c', 'r', 'o', 'l', 'l', 'L', 'o', 'c', 'k'],
        NamedKey::NumLock => &['N', 'u', 'm', 'L', 'o', 'c', 'k'],
        NamedKey::PrintScreen => &['P', 'r', 'i', 'n', 't', 'S', 'c', 'r', 'e', 'e', 'n'],
        NamedKey::Pause => &['P', 'a', 'u', 's', 'e'],
        NamedKey::ContextMenu => &['C', 'o', 'n', 't', 'e', 'x', 't', 'M', 'e', 'n', 'u'],
        NamedKey::Other => &['O', 't', 'h', 'e', 'r'],
    };
    proof {
        match key {
            NamedKey::Tab => assert(label@ =~= seq!['T', 'a', 'b']),
            NamedKey::Insert => assert(label@ =~= seq!['I', 'n', 's', 'e', 'r', 't']),
            NamedKey::Escape => assert(label@ =~= seq!['E', 's', 'c']),
            NamedKey::Enter => assert(label@ =~= seq!['E', 'n', 't', 'e', 'r']),
            NamedKey::Backspace => assert(label@ =~= seq!['B', 'a', 'c', 'k', 's', 'p', 'a', 'c', 'e']),
            NamedKey::Delete => assert(label@ =~= seq!['D', 'e', 'l', 'e', 't', 'e']),
            NamedKey::Space => assert(label@ =~= seq!['S', 'p', 'a', 'c', 'e']),
            NamedKey::PageUp => assert(label@ =~= seq!['P', 'a', 'g', 'e', 'U', 'p']),
            NamedKey::PageDown => assert(label@ =~= seq!['P', 'a', 'g', 'e', 'D', 'o', 'w', 'n']),
            NamedKey::Home => assert(label@ =~= seq!['H', 'o', 'm', 'e']),
            NamedKey::End => assert(label@ =~= seq!['E', 'n', 'd']),
            NamedKey::ArrowUp => assert(label@ =~= seq!['U', 'p']),
            NamedKey::ArrowDown => assert(label@ =~= seq!['D', 'o', 'w', 'n']),
            NamedKey::ArrowLeft => assert(label@ =~= seq!['L', 'e', 'f', 't']),
            NamedKey::ArrowRight => assert(label@ =~= seq!['R', 'i', 'g', 'h', 't']),
            NamedKey::F1 => assert(label@ =~= seq!['F', '1']),
            NamedKey::F2 => assert(label@ =~= seq!['F', '2']),
            NamedKey::F3 => assert(label@ =~= seq!['F', '3']),
            NamedKey::F4 => assert(label@ =~= seq!['F', '4']),
            NamedKey::F5 => assert(label@ =~= seq!['F', '5']),
            NamedKey::F6 => assert(label@ =~= seq!['F', '6']),
            NamedKey::F7 => assert(label@ =~= seq!['F', '7']),
            NamedKey::F8 => assert(label@ =~= seq!['F', '8']),
            NamedKey::F9 => assert(label@ =~= seq!['F', '9']),
            NamedKey::F10 => assert(label@ =~= seq!['F', '1', '0']),
            NamedKey::F11 => assert(label@ =~= seq!['F', '1', '1']),
            NamedKey::F12 => assert(label@ =~= seq!['F', '1', '2']),
            NamedKey::F13 => assert(label@ =~= seq!['F', '1', '3']),
            NamedKey::F14 => assert(label@ =~= seq!['F', '1', '4']),
            NamedKey::F15 => assert(label@ =~= seq!['F', '1', '5']),
            NamedKey::F16 => assert(label@ =~= seq!['F', '1', '6']),
            NamedKey::F17 => assert(label@ =~= seq!['F', '1', '7']),
            NamedKey::F18 => assert(label@ =~= seq!['F', '1', '8']),
            NamedKey::F19 => assert(label@ =~= seq!['F', '1', '9']),
            NamedKey::F20 => assert(label@ =~= seq!['F', '2', '0']),
            NamedKey::F21 => assert(label@ =~= seq!['F', '2', '1']),
            NamedKey::F22 => assert(label@ =~= seq!['F', '2', '2']),
            NamedKey::F23 => assert(label@ =~= seq!['F', '2', '3']),
            NamedKey::F24 => assert(label@ =~= seq!['F', '2', '4']),
            NamedKey::F25 => assert(label@ =~= seq!['F', '2', '5']),
            NamedKey::F26 => assert(label@ =~= seq!['F', '2', '6']),
            NamedKey::F27 => assert(label@ =~= seq!['F', '2', '7']),
            NamedKey::F28 => assert(label@ =~= seq!['F', '2', '8']),
            NamedKey::F29 => assert(label@ =~= seq!['F', '2', '9']),
            NamedKey::F30 => assert(label@ =~= seq!['F', '3', '0']),
            NamedKey::F31 => assert(label@ =~= seq!['F', '3', '1']),
            NamedKey::F32 => assert(label@ =~= seq!['F', '3', '2']),
            NamedKey::F33 => assert(label@ =~= seq!['F', '3', '3']),
            NamedKey::F34 => assert(label@ =~= seq!['F', '3', '4']),
            NamedKey::F35 => assert(label@ =~= seq!['F', '3', '5']),
            NamedKey::CapsLock => assert(label@ =~= seq!['C', 'a', 'p', 's', 'L', 'o', 'c', 'k']),
            NamedKey::ScrollLock => assert(label@ =~= seq!['S', 'c', 'r', 'o', 'l', 'l', 'L', 'o', 'c', 'k']),
            NamedKey::NumLock => assert(label@ =~= seq!['N', 'u', 'm', 'L', 'o', 'c', 'k']),
            NamedKey::PrintScreen => assert(label@ =~= seq!['P', 'r', 'i', 'n', 't', 'S', 'c', 'r', 'e', 'e', 'n']),
            NamedKey::Pause => assert(label@ =~= seq!['P', 'a', 'u', 's', 'e']),
            NamedKey::ContextMenu => assert(label@ =~= seq!['C', 'o', 'n', 't', 'e', 'x', 't', 'M', 'e', 'n', 'u']),
            NamedKey::Other => assert(label@ =~= seq!['O', 't', 'h', 'e', 'r']),
        }
    }
    string_from_chars(label)
}


/// Where `s.push(x)` has its last `c`.
pub proof fn lemma_last_index_push(s: Seq<char>, x: char, c: char)
    ensures
        last_index_of(s.push(x), c) == (if x == c { s.len() as int } else { last_index_of(s, c) }),
        -1 <= last_index_of(s, c) < s.len(),
    decreases s.len(),
{
    assert(s.push(x).drop_last() =~= s);
    if s.len() > 0 {
        lemma_last_index_push(s.drop_last(), s.last(), c);
        assert(s.drop_last().push(s.last()) =~= s);
    }
}

/// Splitting after one more character.
pub proof fn lemma_split_push(s: Seq<char>, x: char, c: char)
    ensures
        split_on(s, c).len() > 0,
        x == c ==> split_on(s.push(x), c) == split_on(s, c).push(Seq::empty()),
        x != c ==> split_on(s.push(x), c) == split_on(s, c).update(
            split_on(s, c).len() - 1,
            split_on(s, c).last().push(x),
        ),
    decreases s.len(),
{
    lemma_last_index_push(s, x, c);
    let k = last_index_of(s, c);
    if x == c {
        assert(s.push(x).take(s.len() as int) =~= s);
        assert(s.push(x).skip(s.len() as int + 1) =~= Seq::<char>::empty());
    } else if k < 0 {
    } else {
        assert(s.push(x).take(k) =~= s.take(k));
        assert(s.push(x).skip(k + 1) =~= s.skip(k + 1).push(x));
        let pre = split_on(s.take(k), c);
        assert(pre.push(s.skip(k + 1).push(x)) =~= pre.push(s.skip(k + 1)).update(
            pre.len() as int,
            s.skip(k + 1).push(x),
        ));
    }
}

/// The `+`-separated parts of a chord text.
fn split_parts(s: &[char]) -> (r: Vec<Vec<char>>)
    ensures
        r@.map_values(|v: Vec<char>| v@) == split_on(s@, '+'),
{
    let mut parts: Vec<Vec<char>> = Vec::new();
    let mut current: Vec<char> = Vec::new();
    let mut i: usize = 0;
    assert(s@.take(0) =~= Seq::<char>::empty());
    assert(split_on(Seq::<char>::empty(), '+') =~= seq![Seq::<char>::empty()]);
    while i < s.len()
        invariant
            i <= s@.len(),
            parts@.map_values(|v: Vec<char>| v@).push(current@) == split_on(s@.take(i as int), '+'),
        decreases s@.len() - i,
    {
        let ghost pre = s@.take(i as int);
        proof {
            lemma_split_push(pre, s@[i as int], '+');
        }
        assert(s@.take(i + 1) =~= pre.push(s@[i as int]));
        if s[i] == '+' {
            let ghost old_parts = parts@.map_values(|v: Vec<char>| v@);
            let done = current;
            parts.push(done);
            current = Vec::new();
            assert(parts@.map_values(|v: Vec<char>| v@) =~= old_parts.push(done@));
            assert(parts@.map_values(|v: Vec<char>| v@).push(current@) =~= old_parts.push(done@).push(
                Seq::empty(),
            ));
        } else {
            let ghost old_all = parts@.map_values(|v: Vec<char>| v@).push(current@);
            current.push(s[i]);
            assert(parts@.map_values(|v: Vec<char>| v@).push(current@) =~= old_all.update(
                old_all.len() - 1,
                old_all.last().push(s@[i as int]),
            ));
        }
        i += 1;
    }
    let ghost old_parts = parts@.map_values(|v: Vec<char>| v@);
    parts.push(current);
    assert(parts@.map_values(|v: Vec<char>| v@) =~= old_parts.push(current@));
    assert(s@.take(s@.len() as int) =~= s@);
    parts
}

/// Scans chord parts.
fn scan_parts(parts: &Vec<Vec<char>>) -> (r: (bool, bool, bool, usize, Vec<char>))
    ensures
        r.0 == chord_scan(parts@.map_values(|v: Vec<char>| v@)).ctrl,
        r.1 == chord_scan(parts@.map_values(|v: Vec<char>| v@)).shift,
        r.2 == chord_scan(parts@.map_values(|v: Vec<char>| v@)).alt,
        r.3 == chord_scan(parts@.map_values(|v: Vec<char>| v@)).keys || (r.3 >= 2
            && chord_scan(parts@.map_values(|v: Vec<char>| v@)).keys >= 2),
        r.3 == 1 ==> r.4@ == chord_scan(parts@.map_values(|v: Vec<char>| v@)).key,
{
    let ghost all = parts@.map_values(|v: Vec<char>| v@);
    let mut ctrl = false;
    let mut shift = false;
    let mut alt = false;
    let mut keys: usize = 0;
    let mut key: Vec<char> = Vec::new();
    let ctrl_w = ['c', 't', 'r', 'l'];
    let control_w = ['c', 'o', 'n', 't', 'r', 'o', 'l'];
    let shift_w = ['s', 'h', 'i', 'f', 't'];
    let alt_w = ['a', 'l', 't'];
    assert(ctrl_w@ =~= seq!['c', 't', 'r', 'l']);
    assert(control_w@ =~= seq!['c', 'o', 'n', 't', 'r', 'o', 'l']);
    assert(shift_w@ =~= seq!['s', 'h', 'i', 'f', 't']);
    assert(alt_w@ =~= seq!['a', 'l', 't']);
    let mut j: usize = 0;
    while j < parts.len()
        invariant
            j <= parts@.len(),
            all == parts@.map_values(|v: Vec<char>| v@),
            ctrl_w@ == seq!['c', 't', 'r', 'l'],
            control_w@ == seq!['c', 'o', 'n', 't', 'r', 'o', 'l'],
            shift_w@ == seq!['s', 'h', 'i', 'f', 't'],
            alt_w@ == seq!['a', 'l', 't'],
            ctrl == chord_scan(all.take(j as int)).ctrl,
            shift == chord_scan(all.take(j as int)).shift,
            alt == chord_scan(all.take(j as int)).alt,
            keys <= 2,
            keys == chord_scan(all.take(j as int)).keys || (keys == 2 && chord_scan(
                all.take(j as int),
            ).keys >= 2),
            keys == 1 ==> key@ == chord_scan(all.take(j as int)).key,
        decreases parts@.len() - j,
    {
        assert(all.take(j + 1).drop_last() =~= all.take(j as int));
        assert(all.take(j + 1).last() == parts@[j as int]@);
        let t = trim_chars(parts[j].as_slice());
        let p = lower_chars(t.as_slice());
        if p.len() == 0 {
        } else if crate::text::chars_equal(&p, &ctrl_w) || crate::text::chars_equal(&p, &control_w) {
            ctrl = true;
        } else if crate::text::chars_equal(&p, &shift_w) {
            shift = true;
        } else if crate::text::chars_equal(&p, &alt_w) {
            alt = true;
        } else {
            if keys < 2 {
                keys += 1;
            }
            key = p;
        }
        j += 1;
    }
    assert(all.take(parts@.len() as int) =~= all);
    (ctrl, shift, alt, keys, key)
}

/// The key named by a lower-cased chord key word.
fn parse_chord_key(s: &[char]) -> (r: Result<ChordKey, ()>)
    ensures
        match r {
            Ok(k) => chord_key_spec(s@) == Some(k@),
            Err(_) => chord_key_spec(s@) is None,
        },
{
    match chord_key_named_exec(s) {
        Some(k) => Ok(ChordKey::Named(k)),
        None => {
            if s.len() == 1 && (s[0] as u32) < 0x80 {
                Ok(ChordKey::Character(string_from_chars(s)))
            } else {
                Err(())
            }
        },
    }
}

impl KeyChord {
    /// Parses a chord text such as `ctrl+shift+t`.
    pub fn parse(s: &str) -> (r: Result<KeyChord, ()>)
        ensures
            match r {
                Ok(c) => parse_chord(s@) == Some(c@),
                Err(_) => parse_chord(s@) is None,
            },
    {
        let chars = chars_of(s);
        let parts = split_parts(chars.as_slice());
        let (ctrl, shift, alt, keys, key_word) = scan_parts(&parts);
        if keys != 1 {
            return Err(());
        }
        match parse_chord_key(key_word.as_slice()) {
            Ok(key) => Ok(KeyChord { ctrl, shift, alt, key }),
            Err(_) => Err(()),
        }
    }

    /// A copy of the chord.
    pub fn duplicate(&self) -> (r: KeyChord)
        ensures
            r@ == self@,
    {
        let key = match &self.key {
            ChordKey::Character(s) => ChordKey::Character(s.clone()),
            ChordKey::Named(k) => ChordKey::Named(*k),
        };
        KeyChord { ctrl: self.ctrl, shift: self.shift, alt: self.alt, key }
    }

    /// Whether two chords are the same.
    pub fn same_as(&self, other: &KeyChord) -> (r: bool)
        ensures
            r == (self@ == other@),
    {
        if self.ctrl != other.ctrl || self.shift != other.shift || self.alt != other.alt {
            return false;
        }
        match (&self.key, &other.key) {
            (ChordKey::Character(a), ChordKey::Character(b)) => {
                let r = crate::text::chars_equal(chars_of(a.as_str()).as_slice(), chars_of(b.as_str()).as_slice());
                r
            },
            (ChordKey::Named(a), ChordKey::Named(b)) => *a == *b,
            _ => false,
        }
    }

    /// Human-readable label, e.g. `Ctrl+Shift+T`.
    pub fn display_label(&self) -> (r: String)
        ensures
            r@ == chord_label(self@),
    {
        let mut out: Vec<char> = Vec::new();
        if self.ctrl {
            out.push('C');
            out.push('t');
            out.push('r');
            out.push('l');
            out.push('+');
        }
        if self.alt {
            out.push('A');
            out.push('l');
            out.push('t');
            out.push('+');
        }
        if self.shift {
            out.push('S');
            out.push('h');
            out.push('i');
            out.push('f');
            out.push('t');
            out.push('+');
        }
        let ghost head = out@;
        let key_label = self.key.display_label();
        let label_chars = chars_of(key_label.as_str());
        let mut i: usize = 0;
        while i < label_chars.len()
            invariant
                i <= label_chars@.len(),
                out@ == head + label_chars@.take(i as int),
            decreases label_chars@.len() - i,
        {
            out.push(label_chars[i]);
            i += 1;
            assert(head + label_chars@.take(i as int) =~= (head + label_chars@.take(i - 1)).push(
                label_chars@[i - 1],
            ));
        }
        assert(label_chars@.take(label_chars@.len() as int) =~= label_chars@);
        assert(head =~= (if self.ctrl { seq!['C', 't', 'r', 'l', '+'] } else { Seq::empty() }) + (
        if self.alt {
            seq!['A', 'l', 't', '+']
        } else {
            Seq::empty()
        }) + (if self.shift { seq!['S', 'h', 'i', 'f', 't', '+'] } else { Seq::empty() }));
        string_from_chars(out.as_slice())
    }
}

impl ChordKey {
    /// Label of the key: one-byte text upper-cased, other text as is.
    pub fn display_label(&self) -> (r: String)
        ensures
            r@ == chord_key_label(self@),
    {
        match self {
            ChordKey::Character(s) => {
                let chars = chars_of(s.as_str());
                if chars.len() == 1 && (chars[0] as u32) < 0x80 {
                    let mut up: Vec<char> = Vec::new();
                    let mut i: usize = 0;
                    while i < chars.len()
                        invariant
                            i <= chars@.len(),
                            up@ == chars@.take(i as int).map_values(|c: char| ascii_upper(c)),
                        decreases chars@.len() - i,
                    {
                        up.push(to_ascii_upper(chars[i]));
                        i += 1;
                        assert(chars@.take(i as int).map_values(|c: char| ascii_upper(c))
                            =~= chars@.take(i - 1).map_values(|c: char| ascii_upper(c)).push(
                            ascii_upper(chars@[i - 1]),
                        ));
                    }
                    assert(chars@.take(chars@.len() as int) =~= chars@);
                    string_from_chars(up.as_slice())
                } else {
                    s.clone()
                }
            },
            ChordKey::Named(k) => named_key_label(*k),
        }
    }
}

/// The chord a key event makes.
pub fn event_to_chord(event: &KeyEvent, modifiers: ModifiersState) -> (r: KeyChord)
    ensures
        r@ == event_chord(*event, modifiers),
{
    let key = match &event.logical_key {
        Key::Character(text) => {
            let lower = lower_chars(chars_of(text.as_str()).as_slice());
            ChordKey::Character(string_from_chars(lower.as_slice()))
        },
        Key::Named(named) => ChordKey::Named(*named),
        _ => ChordKey::Character(String::new()),
    };
    KeyChord {
        ctrl: modifiers.control_key(),
        shift: modifiers.shift_key(),
        alt: modifiers.alt_key(),
        key,
    }
}


impl KeybindingsConfig {
    fn sources(&self) -> (r: Vec<(&String, KeyAction)>)
        ensures
            r@.map_values(|p: (&String, KeyAction)| (p.0@, p.1@)) == binding_sources(*self),
    {
        let mut v: Vec<(&String, KeyAction)> = Vec::new();
        v.push((&self.new_tab, KeyAction::NewTab));
        v.push((&self.duplicate_tab, KeyAction::DuplicateTab));
        v.push((&self.close_tab, KeyAction::CloseTab));
        v.push((&self.detach_tab, KeyAction::DetachTab));
        v.push((&self.next_tab, KeyAction::NextTab));
        v.push((&self.prev_tab, KeyAction::PrevTab));
        v.push((&self.rename_tab, KeyAction::RenameTab));
        v.push((&self.copy, KeyAction::Copy));
        v.push((&self.copy_insert, KeyAction::Copy));
        v.push((&self.paste, KeyAction::Paste));
        v.push((&self.paste_insert, KeyAction::Paste));
        v.push((&self.clear_scrollback, KeyAction::ClearScrollback));
        v.push((&self.zoom_in, KeyAction::ZoomIn));
        v.push((&self.zoom_out, KeyAction::ZoomOut));
        v.push((&self.zoom_reset, KeyAction::ZoomReset));
        v.push((&self.open_search, KeyAction::OpenSearch));
        v.push((&self.open_palette, KeyAction::OpenCommandPalette));
        v.push((&self.select_tab_1, KeyAction::SelectTab(1)));
        v.push((&self.select_tab_2, KeyAction::SelectTab(2)));
        v.push((&self.select_tab_3, KeyAction::SelectTab(3)));
        v.push((&self.select_tab_4, KeyAction::SelectTab(4)));
        v.push((&self.select_tab_5, KeyAction::SelectTab(5)));
        v.push((&self.select_tab_6, KeyAction::SelectTab(6)));
        v.push((&self.select_tab_7, KeyAction::SelectTab(7)));
        v.push((&self.select_tab_8, KeyAction::SelectTab(8)));
        v.push((&self.select_tab_9, KeyAction::SelectTab(9)));
        v.push((&self.split_vertical, KeyAction::SplitVertical));
        v.push((&self.split_horizontal, KeyAction::SplitHorizontal));
        v.push((&self.close_pane, KeyAction::ClosePane));
        v.push((&self.focus_pane_left, KeyAction::FocusPaneLeft));
        v.push((&self.focus_pane_right, KeyAction::FocusPaneRight));
        v.push((&self.focus_pane_up, KeyAction::FocusPaneUp));
        v.push((&self.focus_pane_down, KeyAction::FocusPaneDown));
        v.push((&self.scroll_page_up, KeyAction::ScrollPageUp));
        v.push((&self.scroll_page_down, KeyAction::ScrollPageDown));
        v.push((&self.jump_prompt_prev, KeyAction::JumpPromptPrev));
        v.push((&self.jump_prompt_next, KeyAction::JumpPromptNext));
        v.push((&self.toggle_fullscreen, KeyAction::ToggleFullscreen));
        assert(v@.map_values(|p: (&String, KeyAction)| (p.0@, p.1@)) =~= binding_sources(*self));
        v
    }

    /// The chords that parse, each with its action, in the order they are tried.
    pub fn bindings(&self) -> (r: Vec<(KeyChord, KeyAction)>)
        ensures
            r@.map_values(|p: (KeyChord, KeyAction)| (p.0@, p.1@)) == parsed_bindings(binding_sources(*self)),
    {
        let src = self.sources();
        let ghost all = src@.map_values(|p: (&String, KeyAction)| (p.0@, p.1@));
        let mut out: Vec<(KeyChord, KeyAction)> = Vec::new();
        let mut i: usize = 0;
        while i < src.len()
            invariant
                i <= src@.len(),
                all == src@.map_values(|p: (&String, KeyAction)| (p.0@, p.1@)),
                out@.map_values(|p: (KeyChord, KeyAction)| (p.0@, p.1@)) == parsed_bindings(all.take(i as int)),
            decreases src@.len() - i,
        {
            assert(all.take(i + 1).drop_last() =~= all.take(i as int));
            let ghost before = out@.map_values(|p: (KeyChord, KeyAction)| (p.0@, p.1@));
            let (text, action) = &src[i];
            match KeyChord::parse(text.as_str()) {
                Ok(chord) => {
                    let a = action.duplicate();
                    out.push((chord, a));
                    assert(out@.map_values(|p: (KeyChord, KeyAction)| (p.0@, p.1@)) =~= before.push((chord@, a@)));
                },
                Err(_) => {},
            }
            i += 1;
        }
        assert(all.take(src@.len() as int) =~= all);
        out
    }

    /// The action bound to the chord that `event` makes, if any.
    pub fn resolve(&self, event: &KeyEvent, modifiers: ModifiersState) -> (r: Option<KeyAction>)
        ensures
            match r {
                Some(a) => first_action_for(parsed_bindings(binding_sources(*self)), event_chord(*event, modifiers)) == Some(a@),
                None => first_action_for(parsed_bindings(binding_sources(*self)), event_chord(*event, modifiers)) is None,
            },
    {
        let chord = event_to_chord(event, modifiers);
        let b = self.bindings();
        let ghost all = b@.map_values(|p: (KeyChord, KeyAction)| (p.0@, p.1@));
        let mut i: usize = 0;
        assert(all.skip(0) =~= all);
        while i < b.len()
            invariant
                i <= b@.len(),
                all == b@.map_values(|p: (KeyChord, KeyAction)| (p.0@, p.1@)),
                first_action_for(all, chord@) == first_action_for(all.skip(i as int), chord@),
                all == parsed_bindings(binding_sources(*self)),
                chord@ == event_chord(*event, modifiers),
            decreases b@.len() - i,
        {
            assert(all.skip(i as int).drop_first() =~= all.skip(i + 1));
            assert(all.skip(i as int)[0] == (b@[i as int].0@, b@[i as int].1@));
            if b[i].0.same_as(&chord) {
                return Some(b[i].1.duplicate());
            }
            i += 1;
        }
        None
    }

    /// Label of the first chord bound to `action`, e.g. `Ctrl+Shift+T`.
    pub fn chord_label_for_action(&self, action: KeyAction) -> (r: Option<String>)
        ensures
            match r {
                Some(l) => first_chord_for(parsed_bindings(binding_sources(*self)), action@) matches Some(c) && l@ == chord_label(c),
                None => first_chord_for(parsed_bindings(binding_sources(*self)), action@) is None,
            },
    {
        let b = self.bindings();
        let ghost all = b@.map_values(|p: (KeyChord, KeyAction)| (p.0@, p.1@));
        let mut i: usize = 0;
        assert(all.skip(0) =~= all);
        while i < b.len()
            invariant
                i <= b@.len(),
                all == b@.map_values(|p: (KeyChord, KeyAction)| (p.0@, p.1@)),
                first_chord_for(all, action@) == first_chord_for(all.skip(i as int), action@),
                all == parsed_bindings(binding_sources(*self)),
            decreases b@.len() - i,
        {
            assert(all.skip(i as int).drop_first() =~= all.skip(i + 1));
            assert(all.skip(i as int)[0] == (b@[i as int].0@, b@[i as int].1@));
            if b[i].1.same_as(&action) {
                return Some(b[i].0.display_label());
            }
            i += 1;
        }
        None
    }
}

impl std::str::FromStr for KeyChord {
    type Err = ();

    /// Parses a chord text (see `KeyChord::parse`).
    fn from_str(s: &str) -> (r: Result<KeyChord, ()>)
        ensures
            match r {
                Ok(c) => parse_chord(s@) == Some(c@),
                Err(_) => parse_chord(s@) is None,
            },
    {
        KeyChord::parse(s)
    }
}

} // verus!

verus! {

/// No `+` in `s`.
spec fn plus_free(s: Seq<char>) -> bool {
    forall|i: int| 0 <= i < s.len() ==> s[i] != '+'
}

/// Words joined with `+` between them.
spec fn join_plus(ws: Seq<Seq<char>>) -> Seq<char>
    decreases ws.len(),
{
    if ws.len() == 0 {
        Seq::empty()
    } else if ws.len() == 1 {
        ws[0]
    } else {
        join_plus(ws.drop_last()) + seq!['+'] + ws.last()
    }
}

/// The modifier words of a chord label, in label order.
spec fn mod_words(c: KeyChordView) -> Seq<Seq<char>> {
    (if c.ctrl { seq![seq!['C', 't', 'r', 'l']] } else { Seq::empty() }) + (if c.alt {
        seq![seq!['A', 'l', 't']]
    } else {
        Seq::empty()
    }) + (if c.shift { seq![seq!['S', 'h', 'i', 'f', 't']] } else { Seq::empty() })
}

/// A word that the chord scanner reads as a modifier.
spec fn is_modifier_word(p: Seq<char>) -> bool {
    p == seq!['c', 't', 'r', 'l'] || p == seq!['c', 'o', 'n', 't', 'r', 'o', 'l'] || p == seq![
        's',
        'h',
        'i',
        'f',
        't',
    ] || p == seq!['a', 'l', 't']
}

/// A word that the chord scanner takes as the key, as it stands.
spec fn clean_key_word(p: Seq<char>) -> bool {
    &&& p.len() > 0
    &&& plus_free(p)
    &&& !is_white_space(p[0])
    &&& !is_white_space(p.last())
    &&& forall|i: int| 0 <= i < p.len() ==> ascii_lower(#[trigger] p[i]) == p[i]
}

proof fn lemma_split_single(k: Seq<char>)
    requires
        plus_free(k),
    ensures
        split_on(k, '+') == seq![k],
    decreases k.len(),
{
    if k.len() > 0 {
        let k0 = k.drop_last();
        assert(k[k.len() - 1] != '+');
        assert forall|i: int| 0 <= i < k0.len() implies k0[i] != '+' by {
            assert(k0[i] == k[i]);
        }
        lemma_split_single(k0);
        lemma_split_push(k0, k.last(), '+');
        assert(k0.push(k.last()) =~= k);
    }
}

proof fn lemma_split_append(p: Seq<char>, k: Seq<char>)
    requires
        plus_free(k),
    ensures
        split_on(p + seq!['+'] + k, '+') == split_on(p, '+').push(k),
    decreases k.len(),
{
    if k.len() == 0 {
        assert(p + seq!['+'] + k =~= p.push('+'));
        assert(k =~= Seq::<char>::empty());
        lemma_split_push(p, '+', '+');
    } else {
        let k0 = k.drop_last();
        assert(k[k.len() - 1] != '+');
        assert forall|i: int| 0 <= i < k0.len() implies k0[i] != '+' by {
            assert(k0[i] == k[i]);
        }
        lemma_split_append(p, k0);
        let q = p + seq!['+'] + k0;
        lemma_split_push(q, k.last(), '+');
        assert(q.push(k.last()) =~= p + seq!['+'] + k);
        assert(k0.push(k.last()) =~= k);
        let sp = split_on(p, '+');
        assert(split_on(q, '+') == sp.push(k0));
        assert(k.last() != '+');
        assert(split_on(q.push(k.last()), '+') == sp.push(k0).update(sp.len() as int, k0.push(k.last())));
        assert(sp.push(k0).update(sp.len() as int, k0.push(k.last())) =~= sp.push(k));
    }
}

proof fn lemma_split_join(ws: Seq<Seq<char>>)
    requires
        ws.len() >= 1,
        forall|i: int| 0 <= i < ws.len() ==> plus_free(#[trigger] ws[i]),
    ensures
        split_on(join_plus(ws), '+') == ws,
    decreases ws.len(),
{
    if ws.len() == 1 {
        lemma_split_single(ws[0]);
        assert(seq![ws[0]] =~= ws);
    } else {
        let w0 = ws.drop_last();
        lemma_split_join(w0);
        assert(plus_free(ws[ws.len() - 1]));
        lemma_split_append(join_plus(w0), ws.last());
        assert(w0.push(ws.last()) =~= ws);
    }
}

proof fn lemma_split_parts_plus_free(s: Seq<char>)
    ensures
        forall|i: int| 0 <= i < split_on(s, '+').len() ==> plus_free(#[trigger] split_on(s, '+')[i]),
    decreases s.len(),
{
    if s.len() == 0 {
        assert(split_on(s, '+') =~= seq![s]);
    } else {
        let s0 = s.drop_last();
        lemma_split_parts_plus_free(s0);
        lemma_split_push(s0, s.last(), '+');
        assert(s0.push(s.last()) =~= s);
        let before = split_on(s0, '+');
        assert forall|i: int| 0 <= i < split_on(s, '+').len() implies plus_free(
            #[trigger] split_on(s, '+')[i],
        ) by {
            if i < before.len() - 1 || s.last() == '+' {
                assert(plus_free(before[i]) || i == before.len());
            } else {
                let w = before.last().push(s.last());
                assert(plus_free(before[before.len() - 1]));
                assert(split_on(s, '+')[i] == w);
                assert forall|j: int| 0 <= j < w.len() implies w[j] != '+' by {
                    if j < w.len() - 1 {
                        assert(w[j] == before[before.len() - 1][j]);
                    }
                }
            }
        }
    }
}

proof fn lemma_trim_front_facts(s: Seq<char>)
    ensures
        trim_front(s).len() <= s.len(),
        trim_front(s) =~= s.skip(s.len() - trim_front(s).len()),
        trim_front(s).len() > 0 ==> !is_white_space(trim_front(s)[0]),
    decreases s.len(),
{
    if s.len() > 0 && is_white_space(s[0]) {
        lemma_trim_front_facts(s.skip(1));
        assert(s.skip(1).skip(s.len() - 1 - trim_front(s).len()) =~= s.skip(
            s.len() - trim_front(s).len(),
        ));
    }
}

proof fn lemma_trim_back_facts(s: Seq<char>)
    ensures
        trim_back(s).len() <= s.len(),
        trim_back(s) =~= s.take(trim_back(s).len() as int),
        trim_back(s).len() > 0 ==> !is_white_space(trim_back(s).last()),
    decreases s.len(),
{
    if s.len() > 0 && is_white_space(s.last()) {
        lemma_trim_back_facts(s.drop_last());
        assert(s.drop_last().take(trim_back(s).len() as int) =~= s.take(trim_back(s).len() as int));
    }
}

/// A trimmed, lower-cased part that is not empty is a clean key word.
proof fn lemma_clean_part(q: Seq<char>)
    requires
        plus_free(q),
        lowered(trimmed(q)).len() > 0,
    ensures
        clean_key_word(lowered(trimmed(q))),
{
    lemma_trim_front_facts(q);
    let f = trim_front(q);
    lemma_trim_back_facts(f);
    let t = trimmed(q);
    let p = lowered(t);
    assert(t.len() > 0);
    assert(t[0] == f[0]);
    assert forall|i: int| 0 <= i < p.len() implies p[i] != '+' by {
        assert(t[i] == f[i]);
        assert(f[i] == q[q.len() - f.len() + i]);
    }
    assert(!is_white_space(p[0]));
    assert(!is_white_space(p.last()));
}

proof fn lemma_scan_key_clean(parts: Seq<Seq<char>>)
    requires
        forall|i: int| 0 <= i < parts.len() ==> plus_free(#[trigger] parts[i]),
    ensures
        chord_scan(parts).keys > 0 ==> clean_key_word(chord_scan(parts).key),
    decreases parts.len(),
{
    if parts.len() > 0 {
        let p0 = parts.drop_last();
        assert forall|i: int| 0 <= i < p0.len() implies plus_free(#[trigger] p0[i]) by {
            assert(p0[i] == parts[i]);
        }
        lemma_scan_key_clean(p0);
        let p = lowered(trimmed(parts.last()));
        if p.len() > 0 {
            assert(plus_free(parts[parts.len() - 1]));
            lemma_clean_part(parts.last());
        }
    }
}

/// One more word for the chord scanner.
proof fn lemma_scan_push(ws: Seq<Seq<char>>, w: Seq<char>)
    ensures
        chord_scan(ws.push(w)) == ({
            let prev = chord_scan(ws);
            let p = lowered(trimmed(w));
            if p.len() == 0 {
                prev
            } else if p == seq!['c', 't', 'r', 'l'] || p == seq!['c', 'o', 'n', 't', 'r', 'o', 'l'] {
                ChordScan { ctrl: true, ..prev }
            } else if p == seq!['s', 'h', 'i', 'f', 't'] {
                ChordScan { shift: true, ..prev }
            } else if p == seq!['a', 'l', 't'] {
                ChordScan { alt: true, ..prev }
            } else {
                ChordScan { keys: prev.keys + 1, key: p, ..prev }
            }
        }),
{
    assert(ws.push(w).drop_last() =~= ws);
}

/// The named keys a chord text can name are shown by labels that name them again.
proof fn lemma_named_label_parses(t: Seq<char>)
    requires
        chord_key_named(t) is Some,
    ensures
        chord_key_named(lowered(named_key_label_spec(chord_key_named(t)->0))) == chord_key_named(t),
        lowered(named_key_label_spec(chord_key_named(t)->0)) =~= trimmed(
            named_key_label_spec(chord_key_named(t)->0),
        ).map_values(|c: char| ascii_lower(c)),
        plus_free(named_key_label_spec(chord_key_named(t)->0)),
        lowered(named_key_label_spec(chord_key_named(t)->0)).len() > 0,
        !is_modifier_word(lowered(named_key_label_spec(chord_key_named(t)->0))),
{
    let n = chord_key_named(t)->0;
    let l = named_key_label_spec(n);
    assert(trimmed(l) =~= l);
    let w = lowered(l);
    assert forall|i: int| 0 <= i < l.len() implies l[i] != '+' by {
        assert(ascii_lower(l[i]) == w[i]);
    }
    match n {
        NamedKey::Tab => assert(w =~= seq!['t', 'a', 'b']),
        NamedKey::Insert => assert(w =~= seq!['i', 'n', 's', 'e', 'r', 't']),
        NamedKey::Escape => assert(w =~= seq!['e', 's', 'c']),
        NamedKey::Enter => assert(w =~= seq!['e', 'n', 't', 'e', 'r']),
        NamedKey::Backspace => assert(w =~= seq!['b', 'a', 'c', 'k', 's', 'p', 'a', 'c', 'e']),
        NamedKey::Delete => assert(w =~= seq!['d', 'e', 'l', 'e', 't', 'e']),
        NamedKey::Space => assert(w =~= seq!['s', 'p', 'a', 'c', 'e']),
        NamedKey::PageUp => assert(w =~= seq!['p', 'a', 'g', 'e', 'u', 'p']),
        NamedKey::PageDown => assert(w =~= seq!['p', 'a', 'g', 'e', 'd', 'o', 'w', 'n']),
        NamedKey::Home => assert(w =~= seq!['h', 'o', 'm', 'e']),
        NamedKey::End => assert(w =~= seq!['e', 'n', 'd']),
        NamedKey::ArrowUp => assert(w =~= seq!['u', 'p']),
        NamedKey::ArrowDown => assert(w =~= seq!['d', 'o', 'w', 'n']),
        NamedKey::ArrowLeft => assert(w =~= seq!['l', 'e', 'f', 't']),
        NamedKey::ArrowRight => assert(w =~= seq!['r', 'i', 'g', 'h', 't']),
        NamedKey::F1 => assert(w =~= seq!['f', '1']),
        NamedKey::F2 => assert(w =~= seq!['f', '2']),
        NamedKey::F3 => assert(w =~= seq!['f', '3']),
        NamedKey::F4 => assert(w =~= seq!['f', '4']),
        NamedKey::F5 => assert(w =~= seq!['f', '5']),
        NamedKey::F6 => assert(w =~= seq!['f', '6']),
        NamedKey::F7 => assert(w =~= seq!['f', '7']),
        NamedKey::F8 => assert(w =~= seq!['f', '8']),
        NamedKey::F9 => assert(w =~= seq!['f', '9']),
        NamedKey::F10 => assert(w =~= seq!['f', '1', '0']),
        NamedKey::F11 => assert(w =~= seq!['f', '1', '1']),
        NamedKey::F12 => assert(w =~= seq!['f', '1', '2']),
        _ => {},
    }
}

/// The modifier words scan to the chord's modifiers and no key.
proof fn lemma_scan_mods(c: KeyChordView)
    ensures
        chord_scan(mod_words(c)) == (ChordScan {
            ctrl: c.ctrl,
            shift: c.shift,
            alt: c.alt,
            keys: 0,
            key: Seq::empty(),
        }),
{
    let cw = seq!['C', 't', 'r', 'l'];
    let aw = seq!['A', 'l', 't'];
    let sw = seq!['S', 'h', 'i', 'f', 't'];
    assert(lowered(trimmed(cw)) =~= seq!['c', 't', 'r', 'l']);
    assert(lowered(trimmed(aw)) =~= seq!['a', 'l', 't']);
    assert(lowered(trimmed(sw)) =~= seq!['s', 'h', 'i', 'f', 't']);
    let e = Seq::<Seq<char>>::empty();
    let m1 = if c.ctrl { e.push(cw) } else { e };
    let m2 = if c.alt { m1.push(aw) } else { m1 };
    let m3 = if c.shift { m2.push(sw) } else { m2 };
    lemma_scan_push(e, cw);
    lemma_scan_push(m1, aw);
    lemma_scan_push(m2, sw);
    assert(mod_words(c) =~= m3);
}

/// The modifier words joined, and a `+`, are the label's modifier prefix.
proof fn lemma_join_mods(c: KeyChordView)
    ensures
        forall|i: int| 0 <= i < mod_words(c).len() ==> plus_free(#[trigger] mod_words(c)[i]),
        mod_words(c).len() == 0 ==> chord_label(c) =~= chord_key_label(c.key),
        mod_words(c).len() > 0 ==> chord_label(c) =~= join_plus(mod_words(c)) + seq!['+']
            + chord_key_label(c.key),
{
    let cw = seq!['C', 't', 'r', 'l'];
    let aw = seq!['A', 'l', 't'];
    let sw = seq!['S', 'h', 'i', 'f', 't'];
    let e = Seq::<Seq<char>>::empty();
    let m1 = if c.ctrl { e.push(cw) } else { e };
    let m2 = if c.alt { m1.push(aw) } else { m1 };
    let m3 = if c.shift { m2.push(sw) } else { m2 };
    assert(mod_words(c) =~= m3);
    assert(e.push(cw).drop_last() =~= e);
    assert(m1.push(aw).drop_last() =~= m1);
    assert(m2.push(sw).drop_last() =~= m2);
    let p1 = if c.ctrl { seq!['C', 't', 'r', 'l', '+'] } else { Seq::<char>::empty() };
    let p2 = p1 + if c.alt { seq!['A', 'l', 't', '+'] } else { Seq::<char>::empty() };
    let p3 = p2 + if c.shift { seq!['S', 'h', 'i', 'f', 't', '+'] } else { Seq::<char>::empty() };
    assert(m1.len() > 0 ==> join_plus(m1) + seq!['+'] =~= p1);
    assert(m1.len() == 0 ==> p1 =~= Seq::<char>::empty());
    assert(m2.len() > 0 ==> join_plus(m2) + seq!['+'] =~= p2);
    assert(m2.len() == 0 ==> p2 =~= Seq::<char>::empty());
    assert(m3.len() > 0 ==> join_plus(m3) + seq!['+'] =~= p3);
    assert(m3.len() == 0 ==> p3 =~= Seq::<char>::empty());
    assert(chord_label(c) =~= p3 + chord_key_label(c.key));
    assert forall|i: int| 0 <= i < m3.len() implies plus_free(#[trigger] m3[i]) by {
        assert(m3[i] == cw || m3[i] == aw || m3[i] == sw);
        assert(plus_free(cw));
        assert(plus_free(aw));
        assert(plus_free(sw));
    }
}

/// The label of a key that a clean word names reads back as that key.
proof fn lemma_key_label_word(t: Seq<char>, k: ChordKeyView)
    requires
        clean_key_word(t),
        chord_key_spec(t) == Some(k),
    ensures
        plus_free(chord_key_label(k)),
        lowered(trimmed(chord_key_label(k))).len() > 0,
        !is_modifier_word(lowered(trimmed(chord_key_label(k)))),
        chord_key_spec(lowered(trimmed(chord_key_label(k)))) == Some(k),
{
    let kl = chord_key_label(k);
    let kw = lowered(trimmed(kl));
    match k {
        ChordKeyView::Character(t2) => {
            assert(t2 == t);
            let ch = t[0];
            let u = ascii_upper(ch);
            assert(kl =~= seq![u]);
            assert(!is_white_space(u));
            assert(trimmed(kl) =~= kl);
            assert(ascii_lower(t[0]) == t[0]);
            assert(ascii_lower(u) == ch);
            assert(kw =~= t);
            assert(t[0] != '+');
            assert(plus_free(kl));
        },
        ChordKeyView::Named(n) => {
            lemma_named_label_parses(t);
            assert(trimmed(kl) =~= kl);
        },
    }
}

/// A chord that parsed is given back by parsing its own label: the label shows the
/// chord's modifiers and key in a form that the chord syntax reads as the same chord.
pub proof fn lemma_chord_label_parses_back(s: Seq<char>)
    requires
        parse_chord(s) is Some,
    ensures
        parse_chord(chord_label(parse_chord(s)->0)) == parse_chord(s),
{
    let c = parse_chord(s)->0;
    let parts = split_on(s, '+');
    lemma_split_parts_plus_free(s);
    lemma_scan_key_clean(parts);
    let scan = chord_scan(parts);
    let kl = chord_key_label(c.key);
    lemma_key_label_word(scan.key, c.key);
    let mods = mod_words(c);
    lemma_join_mods(c);
    if mods.len() == 0 {
        lemma_split_single(kl);
    } else {
        lemma_split_join(mods);
        lemma_split_append(join_plus(mods), kl);
    }
    assert(split_on(chord_label(c), '+') == mods.push(kl));
    lemma_scan_mods(c);
    lemma_scan_push(mods, kl);
}

/// `a` and `b` are the same text up to the case of ASCII letters.
pub open spec fn same_ignoring_ascii_case(a: Seq<char>, b: Seq<char>) -> bool {
    a.len() == b.len() && forall|i: int| 0 <= i < a.len() ==> ascii_lower(#[trigger] a[i]) == ascii_lower(b[i])
}

/// The key a chord text names holds no ASCII upper-case letter.
proof fn lemma_scan_key_lower(parts: Seq<Seq<char>>)
    ensures
        forall|i: int| 0 <= i < chord_scan(parts).key.len() ==> !('A' <= #[trigger] chord_scan(parts).key[i] <= 'Z'),
    decreases parts.len(),
{
    if parts.len() > 0 {
        lemma_scan_key_lower(parts.drop_last());
        let q = trimmed(parts.last());
        let p = lowered(q);
        assert forall|i: int| 0 <= i < p.len() implies !('A' <= #[trigger] p[i] <= 'Z') by {
            let ch = q[i];
            assert(p[i] == ascii_lower(ch));
            if 'A' <= ch && ch <= 'Z' {
                assert((ch as u32) + 32 >= 'a' as u32);
            }
        }
        let prev = chord_scan(parts.drop_last());
        let key = chord_scan(parts).key;
        assert(key == prev.key || key == p);
        assert forall|i: int| 0 <= i < key.len() implies !('A' <= #[trigger] key[i] <= 'Z') by {
            if key == prev.key {
                assert(!('A' <= prev.key[i] <= 'Z'));
            } else {
                assert(!('A' <= p[i] <= 'Z'));
            }
        }
    }
}

/// Two key presses whose character keys are the same text up to ASCII case,
/// with the same modifiers, make the same chord, and so resolve to the same
/// action under any bindings; and the chord of a character key holds no
/// ASCII upper-case letter.
pub proof fn lemma_chord_ignores_ascii_case(
    c: KeybindingsConfig,
    e1: KeyEvent,
    e2: KeyEvent,
    m: ModifiersState,
)
    requires
        e1.logical_key matches Key::Character(a) && e2.logical_key matches Key::Character(b)
            && same_ignoring_ascii_case(a@, b@),
    ensures
        event_chord(e1, m) == event_chord(e2, m),
        first_action_for(parsed_bindings(binding_sources(c)), event_chord(e1, m)) == first_action_for(
            parsed_bindings(binding_sources(c)),
            event_chord(e2, m),
        ),
        event_chord(e1, m).key matches ChordKeyView::Character(k) && forall|i: int|
            0 <= i < k.len() ==> !('A' <= #[trigger] k[i] <= 'Z'),
{
    let a = e1.logical_key->Character_0;
    let b = e2.logical_key->Character_0;
    assert(lowered(a@) =~= lowered(b@));
}

/// A key press makes the chord of a binding text, so that the binding fires,
/// when its modifiers are the binding's and its character key is the
/// binding's key up to ASCII case: Ctrl+Shift with the key `T` makes the
/// chord of `ctrl+shift+t`.
pub proof fn lemma_press_makes_binding_chord(s: Seq<char>, e: KeyEvent, m: ModifiersState)
    requires
        ({
            let c = parse_chord(s)->0;
            &&& parse_chord(s) is Some
            &&& c.key matches ChordKeyView::Character(k) && e.logical_key matches Key::Character(t)
                && same_ignoring_ascii_case(t@, k)
            &&& m.control == c.ctrl && m.shift == c.shift && m.alt == c.alt
        }),
    ensures
        event_chord(e, m) == parse_chord(s)->0,
{
    let c = parse_chord(s)->0;
    let k = c.key->Character_0;
    let t = e.logical_key->Character_0;
    lemma_scan_key_lower(split_on(s, '+'));
    assert(k == chord_scan(split_on(s, '+')).key);
    assert forall|i: int| 0 <= i < k.len() implies ascii_lower(t@[i]) == k[i] by {
        assert(ascii_lower(t@[i]) == ascii_lower(k[i]));
        assert(!('A' <= k[i] <= 'Z'));
    }
    assert(lowered(t@) =~= k);
}

} // verus!

use sherion::input::{key_event_to_bytes, kitty_modifier_value, modify_other_modifier_value};
use sherion::keys::{ElementState, Key, KeyEvent, ModifiersState, NamedKey, PhysicalKey, TermMode};
use sherion::pty::output_tap::ModifyOtherKeys;

fn press(key: Key, text: Option<&str>) -> KeyEvent {
    KeyEvent {
        logical_key: key,
        physical_key: PhysicalKey::Other,
        state: ElementState::Pressed,
        repeat: false,
        text: text.map(|t| t.to_owned()),
    }
}

#[test]
fn modifier_value_encodes_ctrl_shift() {
    assert_eq!(modify_other_modifier_value(ModifiersState::control()), 5);
    assert_eq!(modify_other_modifier_value(ModifiersState::shift()), 2);
}

#[test]
fn kitty_modifier_value_counts_from_one() {
    assert_eq!(kitty_modifier_value(ModifiersState::empty()), 1);
    assert_eq!(kitty_modifier_value(ModifiersState::control()), 5);
}

#[test]
fn enter_sends_carriage_return() {
    let bytes = key_event_to_bytes(
        &press(Key::Named(NamedKey::Enter), Some("\r")),
        ModifiersState::empty(),
        TermMode { bits: 0 },
        ModifyOtherKeys::Reset,
    );
    assert_eq!(bytes, Some(b"\r".to_vec()));
}

#[test]
fn plain_text_is_sent_as_is() {
    let bytes = key_event_to_bytes(
        &press(Key::Character("a".to_owned()), Some("a")),
        ModifiersState::empty(),
        TermMode { bits: 0 },
        ModifyOtherKeys::Reset,
    );
    assert_eq!(bytes, Some(b"a".to_vec()));
}

#[test]
fn ctrl_letter_sends_control_byte() {
    let bytes = key_event_to_bytes(
        &press(Key::Character("c".to_owned()), Some("c")),
        ModifiersState::control(),
        TermMode { bits: 0 },
        ModifyOtherKeys::Reset,
    );
    assert_eq!(bytes, Some(vec![0x03]));
}

#[test]
fn arrow_keys_follow_cursor_mode() {
    let up = press(Key::Named(NamedKey::ArrowUp), None);
    let normal = key_event_to_bytes(&up, ModifiersState::empty(), TermMode { bits: 0 }, ModifyOtherKeys::Reset);
    assert_eq!(normal, Some(b"\x1b[A".to_vec()));
    let app = key_event_to_bytes(&up, ModifiersState::empty(), TermMode { bits: 0x2 }, ModifyOtherKeys::Reset);
    assert_eq!(app, Some(b"\x1bOA".to_vec()));
}

#[test]
fn released_keys_send_nothing_without_event_reporting() {
    let mut e = press(Key::Character("a".to_owned()), Some("a"));
    e.state = ElementState::Released;
    assert_eq!(key_event_to_bytes(&e, ModifiersState::empty(), TermMode { bits: 0 }, ModifyOtherKeys::Reset), None);
}

use std::str::FromStr;

use sherion::input::KeyAction;
use sherion::keybindings::{ChordKey, KeyChord, KeybindingsConfig};
use sherion::keys::NamedKey;

#[test]
fn parse_chord() {
    let c = KeyChord::from_str("ctrl+shift+t").unwrap();
    assert!(c.ctrl && c.shift && !c.alt);
    assert_eq!(c.key, ChordKey::Character("t".to_owned()));
}

#[test]
fn parse_chord_rejects_two_keys_and_no_key() {
    assert!(KeyChord::from_str("ctrl+a+b").is_err());
    assert!(KeyChord::from_str("ctrl+shift").is_err());
    assert!(KeyChord::from_str("").is_err());
}

#[test]
fn parse_chord_trims_parts_and_ignores_case() {
    let c = KeyChord::from_str(" Control + Alt + PageUp ").unwrap();
    assert!(c.ctrl && c.alt && !c.shift);
    assert_eq!(c.key, ChordKey::Named(NamedKey::PageUp));
}

#[test]
fn default_labels_for_actions() {
    let config = KeybindingsConfig::default();
    assert_eq!(config.chord_label_for_action(KeyAction::NewTab).as_deref(), Some("Ctrl+Shift+T"));
    assert_eq!(config.chord_label_for_action(KeyAction::RenameTab).as_deref(), Some("F2"));
}

#[test]
fn chord_display_round_trips_through_parse() {
    let c = KeyChord::from_str("alt+shift+down").unwrap();
    assert_eq!(c.display_label(), "Alt+Shift+Down");
}

#[test]
fn chord_label_parses_back_to_the_chord() {
    for text in ["ctrl+shift+t", " Alt + pageup ", "control+esc", "shift+f12", "ctrl+alt+shift+1", "x"] {
        let chord = KeyChord::parse(text).unwrap();
        let again = KeyChord::parse(&chord.display_label()).unwrap();
        assert!(again.same_as(&chord), "{text}");
    }
    assert_eq!(KeyChord::parse("control+esc").unwrap().display_label(), "Ctrl+Esc");
    assert_eq!(KeyChord::parse("ctrl+alt+shift+1").unwrap().display_label(), "Ctrl+Alt+Shift+1");
}

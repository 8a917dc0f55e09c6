use sherion::clipboard::{paste_payload, sanitize_paste};

#[test]
fn line_endings_are_unified() {
    assert_eq!(sanitize_paste("a\r\nb\rc\n"), "a\nb\nc\n");
    assert_eq!(sanitize_paste("\r\r\n"), "\n\n");
}

#[test]
fn control_characters_are_dropped_but_tab_and_newline_kept() {
    assert_eq!(sanitize_paste("x\x1b[31my\t\u{7f}z\u{85}\n"), "x[31my\tz\n");
    assert_eq!(sanitize_paste("héllo"), "héllo");
    assert_eq!(sanitize_paste(""), "");
}

#[test]
fn paste_payload_brackets_and_sanitizes() {
    assert_eq!(paste_payload("ls\r\n", true, true), Some("\x1b[200~ls\n\x1b[201~".to_owned()));
    assert_eq!(paste_payload("a\x07b", true, false), Some("ab".to_owned()));
    assert_eq!(paste_payload("a\x07b", false, false), Some("a\x07b".to_owned()));
    assert_eq!(paste_payload("", false, true), None);
    assert_eq!(paste_payload("\x1b", true, true), None);
}

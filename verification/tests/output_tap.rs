use sherion::pty::output_tap::{validated_utf8, ModifyOtherKeys, PtyOutputTap, TapEvent};

fn cwd_of(event: &TapEvent) -> Option<std::path::PathBuf> {
    match event {
        TapEvent::Cwd(path) => Some(std::path::PathBuf::from(path)),
        _ => None,
    }
}

#[test]
fn detects_modify_other_keys_enable_all() {
    let mut tap = PtyOutputTap::default();
    let events = tap.feed(b"\x1b[>4;2m");
    assert_eq!(events, vec![TapEvent::ModifyOtherKeys(ModifyOtherKeys::EnableAll)]);
}

#[test]
fn detects_modify_other_keys_reset() {
    let mut tap = PtyOutputTap::default();
    let events = tap.feed(b"\x1b[>4;0m");
    assert_eq!(events, vec![TapEvent::ModifyOtherKeys(ModifyOtherKeys::Reset)]);
}

#[test]
fn detects_modify_other_keys_query() {
    let mut tap = PtyOutputTap::default();
    let events = tap.feed(b"\x1b[?4g");
    assert_eq!(events, vec![TapEvent::QueryModifyOtherKeys]);
}

#[test]
fn detects_osc7_cwd() {
    let mut tap = PtyOutputTap::default();
    let events = tap.feed(b"\x1b]7;file://localhost/tmp\x07");
    assert_eq!(events.len(), 1);
    assert_eq!(cwd_of(&events[0]), Some(std::path::PathBuf::from("/tmp")));
}

#[test]
fn validated_utf8_accepts_osc_payload() {
    let payload = b"7;file://localhost/tmp";
    assert_eq!(validated_utf8(payload), Some("7;file://localhost/tmp"));
}

#[test]
fn validated_utf8_rejects_invalid_bytes() {
    let payload = b"7;\xfffile://localhost/tmp";
    assert!(validated_utf8(payload).is_none());
}

#[test]
fn detects_osc7_cwd_with_st_terminator() {
    let mut tap = PtyOutputTap::default();
    let events = tap.feed(b"\x1b]7;file://localhost/home\x1b\\");
    assert_eq!(events.len(), 1);
    assert_eq!(cwd_of(&events[0]), Some(std::path::PathBuf::from("/home")));
}

#[test]
fn detects_osc7_cwd_across_split_feeds() {
    let mut tap = PtyOutputTap::default();
    let first = tap.feed(b"\x1b]7;file://localhost/");
    assert!(first.is_empty());
    let second = tap.feed(b"var/tmp\x07");
    assert_eq!(second.len(), 1);
    assert_eq!(cwd_of(&second[0]), Some(std::path::PathBuf::from("/var/tmp")));
}

#[test]
fn invalid_utf8_in_osc_payload_is_ignored() {
    let mut tap = PtyOutputTap::default();
    let events = tap.feed(b"\x1b]7;file://\xfflocalhost/tmp\x07");
    assert!(events.is_empty());
}

#[test]
fn osc7_and_modify_other_keys_in_same_feed() {
    let mut tap = PtyOutputTap::default();
    let events = tap.feed(b"\x1b]7;file://localhost/tmp\x07\x1b[>4;1m");
    assert_eq!(events.len(), 2);
    assert_eq!(cwd_of(&events[0]), Some(std::path::PathBuf::from("/tmp")));
    assert_eq!(events[1], TapEvent::ModifyOtherKeys(ModifyOtherKeys::EnableExceptWellDefined));
}

#[test]
fn csi_split_across_feeds_is_detected_once() {
    let mut tap = PtyOutputTap::default();
    assert!(tap.feed(b"plain \x1b[>4").is_empty());
    assert_eq!(tap.feed(b";2m text"), vec![TapEvent::ModifyOtherKeys(ModifyOtherKeys::EnableAll)]);
}

#[test]
fn unrelated_sequences_produce_no_events() {
    let mut tap = PtyOutputTap::default();
    assert!(tap.feed(b"\x1b[31mred\x1b[0m \x1b]0;title\x07").is_empty());
}

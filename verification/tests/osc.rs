use sherion::osc::{parse_osc7_cwd, url_decode_path, Osc7Tap};

#[test]
fn parses_osc7_file_url() {
    let cwd = parse_osc7_cwd("7;file://localhost/home/user/proj").unwrap();
    assert_eq!(std::path::PathBuf::from(cwd), std::path::PathBuf::from("/home/user/proj"));
}

#[test]
fn tap_parses_osc7_from_stream() {
    let mut tap = Osc7Tap::default();
    let seq = b"\x1b]7;file://localhost/tmp/test\x07";
    let cwd = tap.feed(seq).unwrap();
    assert_eq!(std::path::PathBuf::from(cwd), std::path::PathBuf::from("/tmp/test"));
}

#[test]
fn tap_handles_st_terminator() {
    let mut tap = Osc7Tap::default();
    let seq = b"\x1b]7;file://host/home\x1b\\";
    let cwd = tap.feed(seq).unwrap();
    assert_eq!(std::path::PathBuf::from(cwd), std::path::PathBuf::from("/home"));
}

#[test]
fn osc7_without_host_uses_path_directly() {
    assert_eq!(parse_osc7_cwd("7;file:///var/log").as_deref(), Some("/var/log"));
}

#[test]
fn osc7_rejects_other_payloads() {
    assert_eq!(parse_osc7_cwd("8;;https://example.com"), None);
    assert_eq!(parse_osc7_cwd("7;http://host/path"), None);
    assert_eq!(parse_osc7_cwd("7;file://"), None);
    assert_eq!(parse_osc7_cwd("7;file://hostonly").as_deref(), Some("hostonly"));
}

#[test]
fn percent_escapes_are_decoded() {
    assert_eq!(url_decode_path("/a%20b"), "/a b");
    assert_eq!(url_decode_path("/x%zzy"), "/x%y");
    assert_eq!(url_decode_path("/end%4"), "/end%");
    assert_eq!(url_decode_path("/plus%+5"), "/plus\u{5}");
}

#[test]
fn osc7_split_across_feeds_matches_single_feed() {
    let whole = b"\x1b]7;file://h/one/two\x07";
    let mut a = Osc7Tap::default();
    let single = a.feed(whole);
    let mut b = Osc7Tap::default();
    let first = b.feed(&whole[..9]);
    let second = b.feed(&whole[9..]);
    assert_eq!(first, None);
    assert_eq!(single, second);
    assert_eq!(single.as_deref(), Some("/one/two"));
}

use sherion::tab_strip::{format_elapsed, truncate_title};

#[test]
fn elapsed_labels() {
    assert_eq!(format_elapsed(0), "0s");
    assert_eq!(format_elapsed(59), "59s");
    assert_eq!(format_elapsed(60), "1:00");
    assert_eq!(format_elapsed(605), "10:05");
    assert_eq!(format_elapsed(3600), "1:00:00");
    assert_eq!(format_elapsed(3 * 3600 + 7 * 60 + 9), "3:07:09");
}

#[test]
fn titles_are_cut_with_an_ellipsis() {
    assert_eq!(truncate_title("short", 10), "short");
    assert_eq!(truncate_title("a long title", 6), "a lon…");
    assert_eq!(truncate_title("abcdef", 0), "ab…");
    assert_eq!(truncate_title("日本語テキスト", 4), "日本語…");
}

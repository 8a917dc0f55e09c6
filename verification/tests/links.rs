use sherion::links::{detect_link_at, find_url_in_text, normalize_detected_url, url_at_position, CellLink, GridCell};

fn row_from_text_sized(text: &str, col_count: usize) -> Vec<GridCell> {
    let mut chars = vec![' '; col_count];
    for (col, ch) in text.chars().enumerate() {
        if col < col_count {
            chars[col] = ch;
        }
    }
    chars
        .into_iter()
        .enumerate()
        .map(|(col, ch)| GridCell { column: col, c: ch, wrapline: false, hyperlink: None })
        .collect()
}

fn row_from_text_with_wrap(text: &str, col_count: usize) -> Vec<GridCell> {
    let trimmed_len = text.trim_end().chars().count();
    let wrap_col = trimmed_len.saturating_sub(1);
    let mut row = row_from_text_sized(text, col_count);
    for cell in row.iter_mut() {
        if cell.column == wrap_col {
            cell.wrapline = true;
        }
    }
    row
}

#[test]
fn detects_url_wrapped_across_two_rows() {
    let row0 = row_from_text_with_wrap("See https://example.com/very/l", 32);
    let row1 = row_from_text_sized("ong/path/here", 32);
    let rows = vec![row0, row1];

    let link = detect_link_at(&rows, 32, 1, 10).expect("wrapped url");
    assert_eq!(link.url, "https://example.com/very/long/path/here");
    assert!(link.spans.len() >= 2);
    assert_eq!(link.spans[0].row, 0);
    assert_eq!(link.spans[1].row, 1);
}

#[test]
fn ignores_rows_separated_by_whitespace() {
    let row0 = row_from_text_sized("Visit https://example.com", 32);
    let row1 = row_from_text_sized("unrelated text", 32);
    let rows = vec![row0, row1];

    let link = detect_link_at(&rows, 32, 0, 6).expect("single row url");
    assert_eq!(link.url, "https://example.com");
    assert_eq!(link.spans.len(), 1);
}

#[test]
fn normalizes_www_prefix() {
    let row0 = row_from_text_sized("open www.example.com", 32);
    let rows = vec![row0];

    let link = detect_link_at(&rows, 32, 0, 5).expect("www url");
    assert_eq!(link.url, "https://www.example.com");
}

#[test]
fn trailing_punctuation_is_dropped() {
    assert_eq!(normalize_detected_url("https://a.b/c)."), "https://a.b/c");
    assert_eq!(normalize_detected_url("www.x.org,"), "https://www.x.org");
    let found = find_url_in_text("see (https://ex.com/a), ok", 6);
    assert_eq!(found, Some((5, 21, "https://ex.com/a".to_owned())));
}

#[test]
fn no_link_outside_urls_or_without_columns() {
    let rows = vec![row_from_text_sized("plain words here", 20)];
    assert!(detect_link_at(&rows, 20, 0, 2).is_none());
    assert!(detect_link_at(&rows, 0, 0, 2).is_none());
    assert!(detect_link_at(&rows, 20, 5, 2).is_none());
    assert_eq!(url_at_position(&rows, 20, 0, 2), None);
}

#[test]
fn explicit_hyperlink_spans_every_row_with_its_id() {
    let mut row0 = row_from_text_sized("click here", 12);
    let mut row1 = row_from_text_sized("and here", 12);
    for cell in row0.iter_mut().take(5) {
        cell.hyperlink = Some(CellLink { id: "L1".to_owned(), uri: "https://target".to_owned() });
    }
    for cell in row1.iter_mut().skip(4).take(4) {
        cell.hyperlink = Some(CellLink { id: "L1".to_owned(), uri: "https://target".to_owned() });
    }
    let rows = vec![row0, row1];
    let link = detect_link_at(&rows, 12, 0, 2).expect("hyperlink");
    assert_eq!(link.url, "https://target");
    assert_eq!(link.spans.len(), 2);
    assert_eq!((link.spans[0].row, link.spans[0].start_col, link.spans[0].end_col), (0, 0, 5));
    assert_eq!((link.spans[1].row, link.spans[1].start_col, link.spans[1].end_col), (1, 4, 8));
    assert_eq!(url_at_position(&rows, 12, 1, 5).as_deref(), Some("https://target"));
}

#[test]
fn normalizing_twice_changes_nothing() {
    for url in ["www.x.org,", "https://a.b/c).", "http://h/p?q=1;", "www.", "ftp://x/"] {
        let once = normalize_detected_url(url);
        assert_eq!(normalize_detected_url(&once), once, "{url}");
    }
}

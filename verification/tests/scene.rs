use sherion::scene::{cell_color, CellColor, TermColor, COLOR_SLOTS};
use sherion::terminal_setup::{NamedColor, Rgb};
use sherion::scene::{foreground_source, glyph_styles_match, ForegroundSource, BLINK};
use sherion::search::SearchMatch;
use sherion::scene::{
    atlas_text_candidate, cell_column_span, is_combining_mark, push_cell_text, text_attributes,
    underline_kind_from_flags, CellFlags, UnderlineKind, BOLD, DIM_BOLD, DOUBLE_UNDERLINE, ITALIC,
    STRIKEOUT, UNDERCURL, UNDERLINE, WIDE_CHAR,
};

#[test]
fn combining_marks_from_extended_blocks_are_recognized() {
    assert!(is_combining_mark('\u{20D0}'));
    assert!(is_combining_mark('\u{1AB0}'));
    assert!(!is_combining_mark('e'));
}

#[test]
fn atlas_text_candidate_rejects_long_runs() {
    assert!(!atlas_text_candidate("abcdefghi"));
    assert!(atlas_text_candidate("abcdefgh"));
}

#[test]
fn atlas_text_candidate_accepts_ascii_with_combining_marks() {
    assert!(atlas_text_candidate("e\u{0301}\u{0308}"));
    assert!(atlas_text_candidate("é"));
}

#[test]
fn atlas_text_candidate_accepts_single_non_ascii_scalar() {
    assert!(atlas_text_candidate("你"));
    assert!(!atlas_text_candidate("你你"));
}

#[test]
fn wide_char_span_is_two_columns() {
    let flags = CellFlags { bits: WIDE_CHAR };
    assert_eq!(cell_column_span(flags), 2);
}

#[test]
fn combining_marks_are_pushed_into_cell_text() {
    let mut buf = String::new();
    push_cell_text(&mut buf, 'e', &['\u{0301}']);
    assert_eq!(buf, "e\u{0301}");
    assert!(atlas_text_candidate(&buf));
}

#[test]
fn multiple_combining_marks_are_appended_in_order() {
    let mut buf = String::new();
    push_cell_text(&mut buf, 'a', &['\u{0301}', '\u{0308}']);
    assert_eq!(buf, "a\u{0301}\u{0308}");
    assert!(atlas_text_candidate(&buf));
}

#[test]
fn wide_char_with_combining_mark_builds_single_text_run() {
    let mut buf = String::new();
    push_cell_text(&mut buf, '你', &['\u{0301}']);
    assert_eq!(buf, "你\u{0301}");
    assert!(!atlas_text_candidate(&buf));
}

#[test]
fn wide_char_span_unchanged_with_zerowidth_marks() {
    let mut buf = String::new();
    push_cell_text(&mut buf, '你', &['\u{0301}']);
    assert_eq!(cell_column_span(CellFlags { bits: WIDE_CHAR }), 2);
    assert_eq!(cell_column_span(CellFlags { bits: 0 }), 1);
}

#[test]
fn empty_text_is_no_atlas_candidate() {
    assert!(!atlas_text_candidate(""));
    assert!(!atlas_text_candidate("e\u{4e00}"));
}

#[test]
fn underline_priority_follows_flags() {
    assert_eq!(underline_kind_from_flags(CellFlags { bits: UNDERCURL | UNDERLINE }), UnderlineKind::Curly);
    assert_eq!(underline_kind_from_flags(CellFlags { bits: DOUBLE_UNDERLINE }), UnderlineKind::Double);
    assert_eq!(underline_kind_from_flags(CellFlags { bits: UNDERLINE }), UnderlineKind::Single);
    assert_eq!(underline_kind_from_flags(CellFlags { bits: 0 }), UnderlineKind::NoUnderline);
}

#[test]
fn hovered_links_are_underlined() {
    let plain = text_attributes(CellFlags { bits: 0 }, true);
    assert_eq!(plain.underline, UnderlineKind::Single);
    let curly = text_attributes(CellFlags { bits: UNDERCURL }, true);
    assert_eq!(curly.underline, UnderlineKind::Curly);
    let styled = text_attributes(CellFlags { bits: DIM_BOLD | ITALIC | STRIKEOUT }, false);
    assert!(styled.bold && styled.italic && styled.strikethrough && styled.dim);
    assert!(!text_attributes(CellFlags { bits: 0 }, false).bold);
    assert!(text_attributes(CellFlags { bits: BOLD }, false).bold);
}

#[test]
fn link_hover_beats_search_highlights() {
    let matches = [SearchMatch { row: 1, start_col: 0, end_col: 4 }, SearchMatch { row: 1, start_col: 6, end_col: 8 }];
    let links = [SearchMatch { row: 1, start_col: 2, end_col: 3 }];
    assert_eq!(foreground_source(&matches, Some(1), &links, 1, 2), ForegroundSource::Link);
    assert_eq!(foreground_source(&matches, Some(1), &links, 1, 7), ForegroundSource::ActiveMatch);
    assert_eq!(foreground_source(&matches, Some(1), &links, 1, 1), ForegroundSource::Match);
    assert_eq!(foreground_source(&matches, Some(5), &links, 1, 7), ForegroundSource::Match);
    assert_eq!(foreground_source(&matches, None, &links, 0, 1), ForegroundSource::Cell);
    assert_eq!(foreground_source(&matches, Some(0), &[], 1, 4), ForegroundSource::Cell);
}

#[test]
fn blink_style_is_detected_from_cell_flag() {
    let style = text_attributes(CellFlags { bits: BLINK }, false);
    assert!(style.blink);
    assert!(!text_attributes(CellFlags { bits: BOLD }, false).blink);
}

#[test]
fn combining_marks_do_not_split_ligature_runs_by_style() {
    let base = text_attributes(CellFlags { bits: 0 }, false);
    let with_blink = text_attributes(CellFlags { bits: BLINK }, false);
    assert!(!glyph_styles_match(&base, &with_blink, true));
    assert!(glyph_styles_match(&base, &base, true));
    assert!(!glyph_styles_match(&base, &base, false));
}

#[test]
fn renderer_colours_fall_back_to_its_own_table() {
    let mut table: Vec<Option<Rgb>> = vec![None; COLOR_SLOTS];
    assert_eq!(cell_color(TermColor::Named(NamedColor::Foreground), &table, true), CellColor::Default);
    assert_eq!(cell_color(TermColor::Named(NamedColor::BrightForeground), &table, true), CellColor::Default);
    assert_eq!(cell_color(TermColor::Named(NamedColor::Background), &table, false), CellColor::Default);
    assert_eq!(
        cell_color(TermColor::Named(NamedColor::Background), &table, true),
        CellColor::Color(Rgb { r: 30, g: 30, b: 30 })
    );
    assert_eq!(
        cell_color(TermColor::Named(NamedColor::Cursor), &table, true),
        CellColor::Color(Rgb { r: 255, g: 255, b: 255 })
    );
    assert_eq!(
        cell_color(TermColor::Named(NamedColor::Foreground), &table, false),
        CellColor::Color(Rgb { r: 204, g: 204, b: 204 })
    );
    assert_eq!(cell_color(TermColor::Indexed(196), &table, true), CellColor::Color(Rgb { r: 255, g: 0, b: 0 }));
    assert_eq!(cell_color(TermColor::Named(NamedColor::Red), &table, true), CellColor::Color(Rgb { r: 205, g: 49, b: 49 }));
    table[1] = Some(Rgb { r: 1, g: 2, b: 3 });
    assert_eq!(cell_color(TermColor::Named(NamedColor::Red), &table, false), CellColor::Color(Rgb { r: 1, g: 2, b: 3 }));
    assert_eq!(cell_color(TermColor::Indexed(1), &table, true), CellColor::Color(Rgb { r: 1, g: 2, b: 3 }));
    let spec = Rgb { r: 9, g: 8, b: 7 };
    assert_eq!(cell_color(TermColor::Spec(spec), &table, true), CellColor::Color(spec));
}

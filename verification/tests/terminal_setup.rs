use sherion::config::{ColorsConfig, TerminalConfig};
use sherion::terminal_setup::{
    config_color_sequence, cursor_style_from_config, resolve_color_at_index, rgb_from_hex, CursorShape, Rgb,
};

fn config_with_cursor(style: &str) -> TerminalConfig {
    let mut config = TerminalConfig::default();
    config.cursor_style = style.to_owned();
    config
}

#[test]
fn cursor_style_maps_block_and_steady_variants() {
    let block = cursor_style_from_config(&config_with_cursor("block"));
    assert_eq!(block.shape, CursorShape::Block);
    assert!(block.blinking);

    let steady = cursor_style_from_config(&config_with_cursor("steady_block"));
    assert_eq!(steady.shape, CursorShape::Block);
    assert!(!steady.blinking);
}

#[test]
fn cursor_style_maps_extended_decscusr_aliases() {
    for (style, shape) in [
        ("beam", CursorShape::Beam),
        ("steady_beam", CursorShape::Beam),
        ("underline", CursorShape::Underline),
        ("steady_underline", CursorShape::Underline),
        ("hollow", CursorShape::HollowBlock),
        ("steady_hollow", CursorShape::HollowBlock),
        ("hidden", CursorShape::Hidden),
    ] {
        let parsed = cursor_style_from_config(&config_with_cursor(style));
        assert_eq!(parsed.shape, shape, "style {style}");
    }
}

#[test]
fn unknown_cursor_style_is_a_blinking_block() {
    let s = cursor_style_from_config(&config_with_cursor("zigzag"));
    assert_eq!(s.shape, CursorShape::Block);
    assert!(s.blinking);
}

#[test]
fn palette_fallbacks() {
    let colors = ColorsConfig::dark();
    assert_eq!(resolve_color_at_index(None, &colors, 1), Rgb { r: 205, g: 49, b: 49 });
    assert_eq!(resolve_color_at_index(None, &colors, 16), Rgb { r: 0, g: 0, b: 0 });
    assert_eq!(resolve_color_at_index(None, &colors, 21), Rgb { r: 0, g: 0, b: 255 });
    assert_eq!(resolve_color_at_index(None, &colors, 196), Rgb { r: 255, g: 0, b: 0 });
    assert_eq!(resolve_color_at_index(None, &colors, 232), Rgb { r: 8, g: 8, b: 8 });
    assert_eq!(resolve_color_at_index(None, &colors, 255), Rgb { r: 238, g: 238, b: 238 });
    assert_eq!(resolve_color_at_index(None, &colors, 256), Rgb { r: 0xcc, g: 0xcc, b: 0xcc });
    assert_eq!(resolve_color_at_index(None, &colors, 257), Rgb { r: 0x1e, g: 0x1e, b: 0x1e });
    assert_eq!(resolve_color_at_index(None, &colors, 258), Rgb { r: 0xff, g: 0xff, b: 0xff });
    assert_eq!(resolve_color_at_index(None, &colors, 267), Rgb { r: 0xcc, g: 0xcc, b: 0xcc });
    assert_eq!(resolve_color_at_index(None, &colors, 268), Rgb { r: 59, g: 142, b: 234 });
    let own = Rgb { r: 1, g: 2, b: 3 };
    assert_eq!(resolve_color_at_index(Some(own), &colors, 256), own);
}

#[test]
fn bad_config_colour_falls_back_to_grey() {
    let mut colors = ColorsConfig::dark();
    colors.foreground = "not a colour".to_owned();
    assert_eq!(resolve_color_at_index(None, &colors, 256), Rgb { r: 204, g: 204, b: 204 });
}

#[test]
fn hex_colours_parse() {
    assert_eq!(rgb_from_hex("#0057d9"), Some(Rgb { r: 0x00, g: 0x57, b: 0xd9 }));
    assert_eq!(rgb_from_hex("  ##A0b1C2 "), Some(Rgb { r: 0xa0, g: 0xb1, b: 0xc2 }));
    assert_eq!(rgb_from_hex("#12345"), None);
    assert_eq!(rgb_from_hex("#12345g"), None);
}

#[test]
fn colour_sequence_sets_dynamic_colours_and_palette() {
    let mut colors = ColorsConfig::dark();
    colors.palette_16 = Some(vec!["#010203".to_owned(), "bad".to_owned()]);
    let seq = config_color_sequence(&colors);
    let expected = b"\x1b]10;rgb:cc/cc/cc\x1b\\\x1b]11;rgb:1e/1e/1e\x1b\\\x1b]12;rgb:ff/ff/ff\x1b\\\x1b]4;0;rgb:01/02/03\x1b\\";
    assert_eq!(seq, expected.to_vec());
}

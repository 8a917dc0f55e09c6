use sherion::config::{restored_cwds, MAX_RESTORED_TABS};
use sherion::config::{
    default_font_fallback, parse_color, BackgroundMode, BackgroundShader, BellConfig, ColorError, ColorsConfig,
    Osc52Config, SessionConfig, TerminalConfig, WindowDecorations,
};

#[test]
fn colour_schemes() {
    let dark = ColorsConfig::dark();
    assert_eq!(dark.foreground, "#cccccc");
    assert_eq!(dark.background, "#1e1e1e");
    assert_eq!(dark.cursor, "#ffffff");
    let light = ColorsConfig::light();
    assert_eq!(light.foreground, "#2e2e2e");
    assert_eq!(light.background, "#f4f4f4");
    assert_eq!(light.cursor, "#0057d9");
    assert!(light.palette_16.is_none() && light.palette_256.is_none());
    assert_eq!(ColorsConfig::default().background, "#1e1e1e");
}

#[test]
fn section_defaults() {
    let t = TerminalConfig::default();
    assert_eq!(t.scrollback_lines, 10_000);
    assert_eq!(t.cursor_style, "block");
    assert!(t.sanitize_paste && t.kitty_keyboard);
    assert_eq!(t.osc52, Osc52Config::CopyPaste);
    assert_eq!(t.busy_heuristic_ms, 800);
    let b = BellConfig::default();
    assert!(b.visual && b.audible && !b.urgency);
    let s = SessionConfig::default();
    assert!(!s.restore_tabs && s.cwd.is_empty());
    assert_eq!(BackgroundMode::default(), BackgroundMode::Cover);
    assert_eq!(BackgroundShader::default(), BackgroundShader::Off);
    assert_eq!(WindowDecorations::default(), WindowDecorations::Borderless);
    assert_eq!(default_font_fallback().len(), 8);
    assert_eq!(default_font_fallback()[7], "Noto Color Emoji");
}

#[test]
fn colour_strings() {
    assert_eq!(parse_color("#cccccc"), Ok((0xcc, 0xcc, 0xcc)));
    assert_eq!(parse_color(" \t#1E1e1E\n"), Ok((0x1e, 0x1e, 0x1e)));
    assert_eq!(parse_color("##ff0000"), Ok((0xff, 0, 0)));
    assert_eq!(parse_color("+f+f+f"), Ok((15, 15, 15)));
    assert_eq!(parse_color("#fff"), Err(ColorError::Length));
    assert_eq!(parse_color("#ggg000"), Err(ColorError::Digits));
    assert_eq!(parse_color("ééé"), Err(ColorError::Digits));
    assert_eq!(parse_color(""), Err(ColorError::Length));
}

#[test]
fn at_most_sixteen_tabs_are_restored_and_only_when_asked() {
    let many: Vec<String> = (0..20).map(|i| format!("/d{i}")).collect();
    let session = SessionConfig { restore_tabs: true, cwd: many.clone() };
    let restored = restored_cwds(&session);
    assert_eq!(restored.len(), MAX_RESTORED_TABS);
    assert_eq!(restored[0], "/d0");
    assert_eq!(restored[15], "/d15");
    let off = SessionConfig { restore_tabs: false, cwd: many };
    assert!(restored_cwds(&off).is_empty());
    let few = SessionConfig { restore_tabs: true, cwd: vec!["/a".to_owned()] };
    assert_eq!(restored_cwds(&few), vec!["/a".to_owned()]);
}

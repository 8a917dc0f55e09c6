use sherion::keybindings::KeybindingsConfig;
use sherion::menu::MenuAction;
use sherion::tabs::TabId;
use sherion::window_state::{
    compile_search_regex, literal_line_matches, matches_from_spans, regex_line_matches, regex_pattern,
    clamp_palette_selection, command_palette_labels, filtered_palette_items, fuzzy_score, is_prompt_line,
    menu_action_key_hint, palette_commands, palette_select_next, palette_select_previous,
    populate_search_matches_from_global, scroll_delta_to_line, search_row, short_path, word_boundary_match,
    GlobalSearchMatch, PaletteItem,
};

#[test]
fn fuzzy_scores() {
    assert_eq!(fuzzy_score("", "anything"), Some(0));
    assert_eq!(fuzzy_score("nt", "New Tab"), Some(10 + 6));
    assert_eq!(fuzzy_score("new", "New Tab"), Some(28));
    assert_eq!(fuzzy_score("xyz", "New Tab"), None);
    assert_eq!(fuzzy_score("q", "Toggle Perf Overlay"), None);
}

#[test]
fn palette_lists_all_commands_for_an_empty_query() {
    let items = filtered_palette_items("", &vec!["work".to_owned()], &vec![(TabId(3), "shell".to_owned())]);
    assert_eq!(items.len(), 2 + palette_commands().len());
    assert!(matches!(&items[0], PaletteItem::Profile { name } if name == "work"));
    assert!(matches!(&items[1], PaletteItem::Tab { id, title } if *id == TabId(3) && title == "shell"));
    assert!(matches!(&items[2], PaletteItem::Command { action: MenuAction::NewTab, .. }));
}

#[test]
fn palette_ranks_commands_by_score() {
    let items = filtered_palette_items("ZOOM", &vec![], &vec![]);
    let labels: Vec<&str> = items
        .iter()
        .map(|i| match i {
            PaletteItem::Command { label, .. } => *label,
            _ => "",
        })
        .collect();
    assert_eq!(labels, vec!["Zoom In", "Zoom Out", "Reset Zoom"]);
}

#[test]
fn palette_labels_carry_chord_hints() {
    let bindings = KeybindingsConfig::default();
    let items = vec![
        PaletteItem::Command { label: "New Tab", action: MenuAction::NewTab },
        PaletteItem::Command { label: "Always on Top", action: MenuAction::ToggleAlwaysOnTop },
        PaletteItem::Tab { id: TabId(1), title: "vim".to_owned() },
        PaletteItem::Profile { name: "dev".to_owned() },
    ];
    let labels = command_palette_labels(&items, &bindings);
    assert_eq!(labels, vec!["New Tab    Ctrl+Shift+T", "Always on Top", "Tab: vim", "Profile: dev"]);
    assert_eq!(menu_action_key_hint(MenuAction::ToggleTabPin, &bindings), None);
}

#[test]
fn palette_selection_moves_and_wraps() {
    assert_eq!(palette_select_next(2, 3), 0);
    assert_eq!(palette_select_next(0, 3), 1);
    assert_eq!(palette_select_previous(0, 3), 2);
    assert_eq!(palette_select_previous(0, 0), 0);
    assert_eq!(clamp_palette_selection(7, 3), 2);
    assert_eq!(clamp_palette_selection(7, 0), 0);
    assert_eq!(clamp_palette_selection(1, 3), 1);
}

#[test]
fn prompt_lines() {
    assert!(is_prompt_line("user@host:~$   "));
    assert!(is_prompt_line("root# ls"));
    assert!(is_prompt_line("❯"));
    assert!(is_prompt_line(">>>"));
    assert!(!is_prompt_line("   "));
    assert!(!is_prompt_line("plain output"));
}

#[test]
fn whole_word_search() {
    let row: Vec<char> = "cat concat cat_x cat".chars().collect();
    assert!(word_boundary_match(&row, 0, 3));
    assert!(!word_boundary_match(&row, 7, 3));
    assert!(!word_boundary_match(&row, 11, 3));
    assert!(word_boundary_match(&row, 17, 3));
    assert_eq!(search_row(&row, "cat", true, true), vec![(0, 3), (17, 20)]);
    assert_eq!(search_row(&row, "cat", true, false), vec![(0, 3), (7, 10), (11, 14), (17, 20)]);
    let upper: Vec<char> = "Cat CAT".chars().collect();
    assert_eq!(search_row(&upper, "cat", false, false), vec![(0, 3), (4, 7)]);
    assert_eq!(search_row(&upper, "cat", true, false), vec![]);
    assert_eq!(search_row(&upper, "a long query", false, false), vec![]);
}

#[test]
fn visible_search_matches() {
    let matches = vec![
        GlobalSearchMatch { grid_line: -5, start_col: 0, end_col: 3 },
        GlobalSearchMatch { grid_line: -1, start_col: 2, end_col: 90 },
        GlobalSearchMatch { grid_line: 30, start_col: 0, end_col: 1 },
    ];
    let (visible, active) = populate_search_matches_from_global(&matches, 1, 2, 24, 80);
    assert_eq!(visible.len(), 1);
    assert_eq!((visible[0].row, visible[0].start_col, visible[0].end_col), (1, 2, 80));
    assert_eq!(active, Some(0));
    let (_, none) = populate_search_matches_from_global(&matches, 0, 2, 24, 80);
    assert_eq!(none, None);
}

#[test]
fn scroll_to_line() {
    assert_eq!(scroll_delta_to_line(-10, 0, 24), -10);
    assert_eq!(scroll_delta_to_line(5, 0, 24), 0);
    assert_eq!(scroll_delta_to_line(30, 0, 24), 7);
    assert_eq!(scroll_delta_to_line(-2, 5, 24), 0);
}

#[test]
fn short_paths() {
    assert_eq!(short_path("~/src"), "~/src");
    let long = "/very/long/path/that/goes/on/and/on/forever";
    assert_eq!(short_path(long), format!("...{}", &long[long.len() - 29..]));
}

#[test]
fn selection_moves_wrap_and_undo_each_other() {
    assert_eq!(palette_select_next(2, 3), 0);
    assert_eq!(palette_select_previous(0, 3), 2);
    for count in 1..5usize {
        for sel in 0..count {
            assert_eq!(palette_select_previous(palette_select_next(sel, count), count), sel);
        }
    }
    assert_eq!(palette_select_next(4, 0), 4);
    assert_eq!(clamp_palette_selection(9, 3), 2);
    assert_eq!(clamp_palette_selection(1, 0), 0);
}

#[test]
fn search_patterns_and_matches() {
    assert_eq!(regex_pattern("foo", false), "foo");
    assert_eq!(regex_pattern("foo", true), "\\bfoo\\b");
    let row: Vec<char> = "Foo food foo".chars().collect();
    let re = compile_search_regex("foo", false, true).unwrap();
    let found = regex_line_matches(&re, &row, -2);
    assert_eq!(
        found,
        vec![
            GlobalSearchMatch { grid_line: -2, start_col: 0, end_col: 3 },
            GlobalSearchMatch { grid_line: -2, start_col: 9, end_col: 12 },
        ]
    );
    let sensitive = compile_search_regex("foo", true, false).unwrap();
    assert_eq!(regex_line_matches(&sensitive, &row, 0).len(), 2);
    assert!(compile_search_regex("(", true, false).is_none());
    let literal = literal_line_matches(&row, "foo", false, true, 4);
    assert_eq!(literal.len(), 2);
    assert_eq!(literal[1], GlobalSearchMatch { grid_line: 4, start_col: 9, end_col: 12 });
    assert_eq!(
        matches_from_spans(&vec![(1, 2), (5, 7)], 3),
        vec![
            GlobalSearchMatch { grid_line: 3, start_col: 1, end_col: 2 },
            GlobalSearchMatch { grid_line: 3, start_col: 5, end_col: 7 },
        ]
    );
}

#[test]
fn menu_entries_that_stay_open_and_app_requests() {
    assert!(sherion::window_state::menu_keeps_open(MenuAction::ThemeDark));
    assert!(sherion::window_state::menu_keeps_open(MenuAction::ZoomIn));
    assert!(!sherion::window_state::menu_keeps_open(MenuAction::NewTab));
    assert!(!sherion::window_state::menu_keeps_open(MenuAction::RenameTab));
    assert!(matches!(
        sherion::window_state::menu_action_app_request(MenuAction::ThemeLight),
        Some(sherion::window_state::MenuAppAction::Theme(sherion::config::ThemeMode::Light))
    ));
    assert!(matches!(
        sherion::window_state::menu_action_app_request(MenuAction::Quit),
        Some(sherion::window_state::MenuAppAction::Quit)
    ));
    assert!(sherion::window_state::menu_action_app_request(MenuAction::Copy).is_none());
    assert!(sherion::window_state::menu_action_app_request(MenuAction::RenameTab).is_none());
}

#[test]
fn tab_key_actions_are_application_requests() {
    assert!(matches!(
        sherion::window_state::key_action_app_request(&sherion::input::KeyAction::DetachTab),
        Some(sherion::window_state::MenuAppAction::DetachTab)
    ));
    assert!(matches!(
        sherion::window_state::key_action_app_request(&sherion::input::KeyAction::NewTab),
        Some(sherion::window_state::MenuAppAction::NewTab)
    ));
    assert!(sherion::window_state::key_action_app_request(&sherion::input::KeyAction::NextTab).is_none());
    assert!(sherion::window_state::key_action_app_request(&sherion::input::KeyAction::SendToTerminal(vec![1])).is_none());
}

#[test]
fn menu_lists_its_entries_with_switch_states() {
    let entries = sherion::window_state::build_menu_entries(
        true,
        sherion::window_state::ViewMode::Grid,
        sherion::config::ThemeMode::Dark,
        125,
        80,
        false,
        true,
    );
    assert_eq!(entries.len(), 26);
    let labels: Vec<String> = entries
        .iter()
        .filter_map(|e| match e {
            sherion::menu::MenuEntry::Action { label, .. } => Some(label.clone()),
            _ => None,
        })
        .collect();
    assert_eq!(labels[0], "New Tab");
    assert_eq!(labels[6], "Move Tab to New Window");
    assert_eq!(labels[10], "Scroll on Output: On");
    assert_eq!(labels[11], "Zoom In (125%)");
    assert_eq!(labels[14], "Perf Overlay: Off");
    assert_eq!(labels[16], "Always on Top: On");
    assert_eq!(labels[17], "Quit");
    assert!(matches!(entries[7], sherion::menu::MenuEntry::Separator));
    assert!(matches!(entries[13], sherion::menu::MenuEntry::ViewSelector { current: sherion::window_state::ViewMode::Grid }));
    assert!(matches!(entries[20], sherion::menu::MenuEntry::OpacitySlider { percent: 80 }));
    assert!(matches!(entries[25], sherion::menu::MenuEntry::Action { action: MenuAction::Quit, .. }));
}

use sherion::keys::{ElementState, Key, KeyEvent, ModifiersState, NamedKey, PhysicalKey};
use sherion::menu::MenuAction;
use sherion::overlays::{
    KeyRoute, Overlays, PaletteOutcome, PaletteState, RenameOutcome, RenameState, SearchOutcome, SearchState,
};
use sherion::tabs::TabId;
use sherion::window_state::PaletteItem;

fn key(logical_key: Key) -> KeyEvent {
    KeyEvent { logical_key, physical_key: PhysicalKey::Other, state: ElementState::Pressed, repeat: false, text: None }
}

fn named(k: NamedKey) -> KeyEvent {
    key(Key::Named(k))
}

fn ch(t: &str) -> KeyEvent {
    key(Key::Character(t.to_owned()))
}

fn none() -> ModifiersState {
    ModifiersState::empty()
}

fn alt() -> ModifiersState {
    ModifiersState { shift: false, control: false, alt: true, super_key: false }
}

#[test]
fn rename_edits_and_commits_trimmed_title() {
    let mut r = RenameState::default();
    assert_eq!(r.handle_key(&ch("a"), none()), RenameOutcome::NotHandled);
    r.start(&"zsh".to_owned());
    assert_eq!(r.handle_key(&named(NamedKey::Backspace), none()), RenameOutcome::Handled);
    assert_eq!(r.draft, "zs");
    r.handle_key(&ch("x "), none());
    r.handle_key(&ch("q"), ModifiersState::control());
    assert_eq!(r.draft, "zsx ");
    assert_eq!(r.handle_key(&named(NamedKey::Enter), none()), RenameOutcome::Commit("zsx".to_owned()));
    assert!(!r.active);
}

#[test]
fn rename_blank_title_and_escape_commit_nothing() {
    let mut r = RenameState::default();
    r.start(&"   ".to_owned());
    assert_eq!(r.handle_key(&named(NamedKey::Enter), none()), RenameOutcome::Handled);
    assert!(!r.active);
    r.start(&"x".to_owned());
    let mut repeat = ch("y");
    repeat.repeat = true;
    assert_eq!(r.handle_key(&repeat, none()), RenameOutcome::NotHandled);
    assert_eq!(r.handle_key(&named(NamedKey::Escape), none()), RenameOutcome::Handled);
    assert!(!r.active);
    assert_eq!(r.draft, "x");
}

#[test]
fn search_keys_edit_query_move_and_toggle() {
    let mut s = SearchState::default();
    assert_eq!(s.handle_key(&ch("a"), none()), SearchOutcome::NotHandled);
    s.open();
    assert_eq!(s.handle_key(&ch("ab"), none()), SearchOutcome::Refresh);
    assert_eq!(s.query, "ab");
    assert_eq!(s.handle_key(&named(NamedKey::Enter), none()), SearchOutcome::Handled);
    s.set_match_count(3);
    assert_eq!(s.handle_key(&named(NamedKey::Enter), ModifiersState::shift()), SearchOutcome::Jump);
    assert_eq!(s.current_match, 2);
    assert_eq!(s.handle_key(&named(NamedKey::Enter), none()), SearchOutcome::Jump);
    assert_eq!(s.current_match, 0);
    assert_eq!(s.handle_key(&ch("W"), alt()), SearchOutcome::Refresh);
    assert!(s.whole_word);
    assert_eq!(s.handle_key(&ch("r"), alt()), SearchOutcome::Refresh);
    assert!(s.use_regex);
    let ctrl_shift = ModifiersState { shift: true, control: true, alt: false, super_key: false };
    assert_eq!(s.handle_key(&ch("C"), ctrl_shift), SearchOutcome::Refresh);
    assert!(s.case_sensitive);
    assert_eq!(s.handle_key(&ch("c"), ModifiersState::control()), SearchOutcome::Handled);
    assert_eq!(s.handle_key(&named(NamedKey::Backspace), none()), SearchOutcome::Refresh);
    assert_eq!(s.query, "a");
    assert_eq!(s.handle_key(&named(NamedKey::Escape), none()), SearchOutcome::Closed);
    assert!(!s.active);
    assert!(!s.close());
}

fn items() -> Vec<PaletteItem> {
    vec![
        PaletteItem::Profile { name: "work".to_owned() },
        PaletteItem::Tab { id: TabId(4), title: "vim".to_owned() },
        PaletteItem::Command { label: "New Tab", action: MenuAction::NewTab },
    ]
}

#[test]
fn palette_moves_wrap_and_enter_chooses() {
    let list = items();
    let mut p = PaletteState::default();
    assert_eq!(p.handle_key(&named(NamedKey::Enter), none(), &list), PaletteOutcome::NotHandled);
    p.open();
    assert_eq!(p.handle_key(&named(NamedKey::ArrowUp), none(), &list), PaletteOutcome::Handled);
    assert_eq!(p.selected_index, 2);
    assert_eq!(p.handle_key(&named(NamedKey::Enter), none(), &list), PaletteOutcome::Run(MenuAction::NewTab));
    assert!(!p.active);
    p.open();
    p.handle_key(&named(NamedKey::ArrowDown), none(), &list);
    assert_eq!(p.handle_key(&named(NamedKey::Enter), none(), &list), PaletteOutcome::FocusTab(TabId(4)));
    p.open();
    assert_eq!(
        p.handle_key(&named(NamedKey::Enter), none(), &list),
        PaletteOutcome::SwitchProfile("work".to_owned())
    );
}

#[test]
fn palette_typing_resets_selection_and_enter_on_nothing_stays_open() {
    let list = items();
    let mut p = PaletteState::default();
    p.open();
    p.handle_key(&named(NamedKey::ArrowDown), none(), &list);
    p.handle_key(&ch("ne"), none(), &list);
    assert_eq!(p.query, "ne");
    assert_eq!(p.selected_index, 0);
    p.handle_key(&named(NamedKey::Backspace), none(), &list);
    assert_eq!(p.query, "n");
    assert_eq!(p.handle_key(&named(NamedKey::Enter), none(), &Vec::new()), PaletteOutcome::Handled);
    assert!(p.active);
    assert_eq!(p.handle_key(&named(NamedKey::Escape), none(), &list), PaletteOutcome::Handled);
    assert!(!p.active);
}

#[test]
fn keys_go_to_the_first_open_overlay() {
    let list = items();
    let mut o = Overlays::default();
    assert_eq!(o.handle_key(&ch("a"), none(), &list), KeyRoute::Bindings);
    o.menu_open = true;
    assert_eq!(o.handle_key(&named(NamedKey::Escape), none(), &list), KeyRoute::DismissMenu);
    assert!(!o.menu_open);
    o.open_search();
    assert_eq!(o.handle_key(&ch("x"), none(), &list), KeyRoute::Search(SearchOutcome::Refresh));
    o.open_palette();
    assert!(!o.search.active);
    assert_eq!(o.handle_key(&ch("x"), none(), &list), KeyRoute::Palette(PaletteOutcome::Handled));
    assert_eq!(o.palette.query, "x");
    o.start_rename(&"t".to_owned());
    assert!(!o.palette.active && !o.search.active && !o.menu_open);
    assert_eq!(o.handle_key(&named(NamedKey::Enter), none(), &list), KeyRoute::Rename(RenameOutcome::Commit("t".to_owned())));
    let mut released = ch("x");
    released.state = ElementState::Released;
    assert_eq!(o.handle_key(&released, none(), &list), KeyRoute::Bindings);
}

#[test]
fn backspace_undoes_one_typed_character() {
    let mut r = RenameState::default();
    r.start(&"ab".to_owned());
    r.handle_key(&ch("z"), none());
    r.handle_key(&named(NamedKey::Backspace), none());
    assert_eq!(r.draft, "ab");
    assert!(r.active);
}

#[test]
fn frame_match_count_keeps_current_match_in_range() {
    let mut s = SearchState::default();
    s.open();
    s.settle_match_count(5);
    s.current_match = 4;
    s.settle_match_count(5);
    assert_eq!(s.current_match, 4);
    s.settle_match_count(3);
    assert_eq!(s.current_match, 0);
    s.current_match = 2;
    s.settle_match_count(0);
    assert_eq!((s.current_match, s.match_count), (0, 0));
}

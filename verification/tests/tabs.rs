use sherion::tabs::{copy_title, session_cwds, TabInfo};
use sherion::split::SplitNode;
use sherion::tabs::{Tab, TabId, TabManager};

fn manager(n: usize) -> TabManager<u32, u32> {
    let mut m: TabManager<u32, u32> = TabManager::empty();
    for i in 0..n {
        m.push_tab(Tab::new(TabId(i), format!("Tab {}", i + 1), i as u32));
    }
    m
}

#[test]
fn next_then_prev_returns_to_the_same_tab() {
    let mut m = manager(3);
    m.set_active(TabId(2));
    m.next_tab();
    assert_eq!(m.active_id(), Some(TabId(0)));
    m.prev_tab();
    assert_eq!(m.active_id(), Some(TabId(2)));
}

#[test]
fn closing_another_tab_keeps_the_active_one() {
    let mut m = manager(4);
    m.set_active(TabId(2));
    assert!(m.close_tab(TabId(0)));
    assert_eq!(m.active_id(), Some(TabId(2)));
    assert_eq!(m.len(), 3);
    assert!(!m.close_tab(TabId(9)));
}

#[test]
fn closing_the_active_last_tab_selects_the_new_last() {
    let mut m = manager(3);
    m.set_active(TabId(2));
    assert!(m.close_tab(TabId(2)));
    assert_eq!(m.active_id(), Some(TabId(1)));
    assert!(m.close_tab(TabId(1)));
    assert!(m.close_tab(TabId(0)));
    assert!(m.is_empty());
    assert_eq!(m.active_id(), None);
}

#[test]
fn reorder_keeps_the_active_tab_and_all_tabs() {
    let mut m = manager(4);
    m.set_active(TabId(1));
    assert!(m.reorder_tab(TabId(0), 3));
    assert_eq!(m.active_id(), Some(TabId(1)));
    let order: Vec<usize> = (0..m.len()).map(|i| m.tab_at_index(i).unwrap().id.0).collect();
    assert_eq!(order, vec![1, 2, 0, 3]);
    assert!(!m.reorder_tab(TabId(7), 0));
}

#[test]
fn select_tab_number_counts_from_one() {
    let mut m = manager(3);
    m.select_tab_number(2);
    assert_eq!(m.active_id(), Some(TabId(1)));
    m.select_tab_number(9);
    assert_eq!(m.active_id(), Some(TabId(1)));
}

#[test]
fn pin_title_and_colour() {
    let mut m = manager(2);
    m.toggle_pin(TabId(1));
    assert!(m.tab_by_id(TabId(1)).unwrap().pinned);
    m.set_title(TabId(1), "build".to_owned());
    assert_eq!(m.tab_by_id(TabId(1)).unwrap().title, "build");
    m.reset_title(TabId(1), "Tab 2");
    assert_eq!(m.tab_by_id(TabId(1)).unwrap().title, "Tab 2");
    m.cycle_tab_color(TabId(0));
    assert_eq!(m.tab_by_id(TabId(0)).unwrap().accent, Some([231, 76, 60]));
}

#[test]
fn infos_report_each_tab() {
    let mut m = manager(2);
    m.set_active(TabId(1));
    let infos = m.infos(&vec![Some("/tmp".to_owned())]);
    assert_eq!(infos.len(), 2);
    assert_eq!(infos[0].cwd.as_deref(), Some("/tmp"));
    assert_eq!(infos[1].cwd, None);
    assert!(!infos[0].active && infos[1].active);
    assert_eq!(infos[1].title, "Tab 2");
}

#[test]
fn tab_running_since_is_the_earliest_pane() {
    let mut tab: Tab<u32, u32> = Tab::new(TabId(0), "t".to_owned(), 1);
    tab.root.split_leaf(0, sherion::split::SplitDirection::Horizontal, 2, 50);
    tab.refresh_running_since(100, &vec![false, true]);
    assert_eq!(tab.running_since(), Some(100));
    tab.refresh_running_since(200, &vec![true, true]);
    assert_eq!(tab.running_since(), Some(100));
    tab.refresh_running_since(300, &vec![true, false]);
    assert_eq!(tab.running_since(), Some(200));
    let _ = SplitNode::<u32, u32>::leaf(0);
}

#[test]
fn grid_view_moves_focus_onto_a_shown_tab() {
    let mut m = manager(12);
    m.set_active(TabId(10));
    m.keep_active_within(sherion::layout::MAX_GRID_PANES);
    assert_eq!(m.active_id(), Some(TabId(8)));
    m.set_active(TabId(3));
    m.keep_active_within(sherion::layout::MAX_GRID_PANES);
    assert_eq!(m.active_id(), Some(TabId(3)));
    let mut small = manager(2);
    small.set_active(TabId(1));
    small.keep_active_within(9);
    assert_eq!(small.active_id(), Some(TabId(1)));
    let mut none = manager(0);
    none.keep_active_within(9);
    assert_eq!(none.active_id(), None);
}

#[test]
fn only_known_directories_are_saved_in_tab_order() {
    let info = |id: usize, cwd: Option<&str>| TabInfo {
        id: TabId(id),
        title: String::new(),
        cwd: cwd.map(str::to_owned),
        active: false,
        running_since: None,
        pinned: false,
        accent: None,
    };
    let saved = session_cwds(&vec![info(0, Some("/a")), info(1, None), info(2, Some("/b"))]);
    assert_eq!(saved, vec!["/a".to_owned(), "/b".to_owned()]);
    assert!(session_cwds(&vec![]).is_empty());
}

#[test]
fn window_title_follows_the_active_tab() {
    let mut m = manager(3);
    m.set_active(TabId(1));
    assert_eq!(m.window_title(&"Sherion".to_owned()), "Tab 2");
    let empty = manager(0);
    assert_eq!(empty.window_title(&"Sherion".to_owned()), "Sherion");
    assert_eq!(copy_title(&"vim".to_owned()), "vim (copy)");
}

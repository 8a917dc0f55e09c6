use sherion::tab_bar::{busy_timer_tick, tab_bar_entries};
use sherion::tabs::{TabId, TabInfo};

fn info(id: usize, pinned: bool, running_since: Option<u64>) -> TabInfo {
    TabInfo {
        id: TabId(id),
        title: format!("t{id}"),
        cwd: Some("/a/rather/long/directory/name/that/needs/shortening".to_owned()),
        active: id == 2,
        running_since,
        pinned,
        accent: None,
    }
}

#[test]
fn pinned_tabs_come_first_then_by_id() {
    let entries = tab_bar_entries(vec![info(3, false, None), info(1, true, Some(500)), info(2, false, Some(2000)), info(0, true, None)], 1500);
    let ids: Vec<usize> = entries.iter().map(|e| e.id.0).collect();
    assert_eq!(ids, vec![0, 1, 2, 3]);
    assert_eq!(entries[1].elapsed, Some(1000));
    assert!(entries[1].busy);
    assert_eq!(entries[2].elapsed, Some(0));
    assert_eq!(entries[0].elapsed, None);
    assert_eq!(entries[0].cwd.as_deref(), Some("...ry/name/that/needs/shortening"));
}

#[test]
fn busy_label_repaints_only_when_the_seconds_change() {
    let mut last = None;
    let tabs = vec![info(0, false, Some(1000)), info(1, false, None), info(2, false, Some(4000))];
    assert!(busy_timer_tick(&mut last, &tabs, 6500));
    assert_eq!(last, Some(5));
    assert!(!busy_timer_tick(&mut last, &tabs, 6900));
    assert!(busy_timer_tick(&mut last, &tabs, 7000));
    assert_eq!(last, Some(6));
    let idle = vec![info(0, false, None)];
    assert!(!busy_timer_tick(&mut last, &idle, 7000));
    assert_eq!(last, None);
    let future = vec![info(0, false, Some(9000))];
    assert!(busy_timer_tick(&mut last, &future, 7000));
    assert_eq!(last, Some(0));
}

#[test]
fn strip_keeps_every_tab_once_with_equal_ids_in_place() {
    let entries = tab_bar_entries(vec![info(5, false, None), info(5, true, None), info(1, false, None)], 0);
    let keys: Vec<(bool, usize)> = entries.iter().map(|e| (e.pinned, e.id.0)).collect();
    assert_eq!(keys, vec![(true, 5), (false, 1), (false, 5)]);
}

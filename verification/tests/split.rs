use sherion::split::{SplitDirection, SplitNode, MAX_LEAVES};

#[test]
fn split_then_close_restores_the_tree() {
    let mut root: SplitNode<u32, u32> = SplitNode::leaf(10);
    assert_eq!(root.split_leaf(0, SplitDirection::Horizontal, 11, 50), Some(1));
    assert_eq!(root.split_leaf(1, SplitDirection::Vertical, 12, 40), Some(2));
    assert_eq!(root.leaf_count(), 3);
    assert_eq!(root.divider_count(), 2);
    assert_eq!(root.leaf_session(0), Some(&10));
    assert_eq!(root.leaf_session(1), Some(&11));
    assert_eq!(root.leaf_session(2), Some(&12));
    assert!(root.remove_leaf(2));
    assert_eq!(root.leaf_count(), 2);
    assert_eq!(root.leaf_session(1), Some(&11));
    assert_eq!(root.ratio_at_divider(0), Some(&50));
    assert_eq!(root.ratio_at_divider(1), None);
}

#[test]
fn split_is_refused_for_missing_pane_and_full_tab() {
    let mut root: SplitNode<u32, u32> = SplitNode::leaf(0);
    assert_eq!(root.split_leaf(3, SplitDirection::Horizontal, 1, 50), None);
    for i in 1..MAX_LEAVES as u32 {
        assert!(root.split_leaf(0, SplitDirection::Horizontal, i, 50).is_some());
    }
    assert_eq!(root.leaf_count(), MAX_LEAVES);
    assert_eq!(root.split_leaf(0, SplitDirection::Vertical, 99, 50), None);
    assert_eq!(root.leaf_count(), MAX_LEAVES);
}

#[test]
fn last_pane_cannot_be_removed() {
    let mut root: SplitNode<u32, u32> = SplitNode::leaf(7);
    assert!(!root.remove_leaf(0));
    assert_eq!(root.leaf_session(0), Some(&7));
}

#[test]
fn new_pane_comes_right_after_the_split_one() {
    let mut root: SplitNode<u32, u32> = SplitNode::leaf(1);
    root.split_leaf(0, SplitDirection::Horizontal, 2, 50);
    root.split_leaf(0, SplitDirection::Vertical, 3, 60);
    assert_eq!(root.leaf_session(0), Some(&1));
    assert_eq!(root.leaf_session(1), Some(&3));
    assert_eq!(root.leaf_session(2), Some(&2));
    assert!(root.set_ratio_at_divider(1, 70));
    assert_eq!(root.ratio_at_divider(1), Some(&70));
    assert!(!root.set_ratio_at_divider(5, 70));
}

#[test]
fn running_since_is_per_pane() {
    let mut root: SplitNode<u32, u32> = SplitNode::leaf(1);
    root.split_leaf(0, SplitDirection::Horizontal, 2, 50);
    assert!(root.set_leaf_running_since(1, Some(500)));
    assert_eq!(root.leaf_running_since(1), Some(Some(500)));
    assert_eq!(root.leaf_running_since(0), Some(None));
    assert_eq!(root.leaf_running_since(2), None);
}

#[test]
fn pane_session_and_timer_can_be_changed_in_place() {
    let mut root: SplitNode<u32, u32> = SplitNode::leaf(1);
    root.split_leaf(0, SplitDirection::Vertical, 2, 50);
    *root.leaf_session_mut(1).unwrap() = 20;
    assert_eq!(root.leaf_session(1), Some(&20));
    assert_eq!(root.leaf_session(0), Some(&1));
    assert!(root.leaf_session_mut(2).is_none());
    *root.leaf_running_since_mut(0).unwrap() = Some(1500);
    assert_eq!(root.leaf_running_since(0), Some(Some(1500)));
    assert_eq!(root.leaf_running_since(1), Some(None));
    assert!(root.leaf_running_since_mut(5).is_none());
}

use sherion::layout::grid_dims;

#[test]
fn grid_for_pane_counts() {
    assert_eq!(grid_dims(0), (1, 1));
    assert_eq!(grid_dims(1), (1, 1));
    assert_eq!(grid_dims(2), (2, 1));
    assert_eq!(grid_dims(3), (2, 2));
    assert_eq!(grid_dims(4), (2, 2));
    assert_eq!(grid_dims(5), (3, 2));
    assert_eq!(grid_dims(9), (3, 3));
    assert_eq!(grid_dims(10), (4, 3));
}

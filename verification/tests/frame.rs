use sherion::frame::{can_skip_frame, ensure_row_buffer, FrameDamage, LineDamageBounds, RedrawCauses};

#[test]
fn full_damage_redraws_every_row() {
    assert_eq!(FrameDamage::Full.damaged_rows(4), vec![0, 1, 2, 3]);
    assert!(FrameDamage::default().is_full());
}

#[test]
fn partial_damage_keeps_lines_inside_the_grid_in_order() {
    let damage = FrameDamage::Partial(vec![
        LineDamageBounds { line: 3, left: 0, right: 5 },
        LineDamageBounds { line: 9, left: 1, right: 2 },
        LineDamageBounds { line: 1, left: 0, right: 0 },
    ]);
    assert_eq!(damage.damaged_rows(5), vec![3, 1]);
    assert_eq!(damage.damaged_lines().map(|l| l.len()), Some(3));
    assert!(!damage.is_full() && !damage.is_unchanged());
}

#[test]
fn unchanged_frame_redraws_nothing() {
    assert!(FrameDamage::Unchanged.damaged_rows(10).is_empty());
    assert!(FrameDamage::Unchanged.is_unchanged());
    assert!(FrameDamage::Unchanged.damaged_lines().is_none());
}

#[test]
fn row_buffer_is_resized_and_cleared() {
    let mut buffer: Vec<Vec<u8>> = vec![vec![1, 2], vec![3], vec![4], vec![5]];
    ensure_row_buffer(&mut buffer, 2);
    assert_eq!(buffer, vec![Vec::<u8>::new(), Vec::new()]);
    ensure_row_buffer(&mut buffer, 3);
    assert_eq!(buffer.len(), 3);
    assert!(buffer.iter().all(|row| row.is_empty()));
}

#[test]
fn frame_is_skipped_only_when_nothing_changed() {
    let quiet = RedrawCauses {
        force_full: false,
        blink_phase_changed: false,
        chrome_changed: false,
        bell_active: false,
        bell_was_active: false,
        overlay_open: false,
        link_hover: false,
    };
    assert!(can_skip_frame(&[FrameDamage::Unchanged, FrameDamage::Unchanged], quiet));
    assert!(can_skip_frame(&[], quiet));
    assert!(!can_skip_frame(&[FrameDamage::Unchanged, FrameDamage::Full], quiet));
    assert!(!can_skip_frame(&[FrameDamage::Unchanged], RedrawCauses { bell_was_active: true, ..quiet }));
    assert!(!can_skip_frame(&[FrameDamage::Unchanged], RedrawCauses { overlay_open: true, ..quiet }));
    assert!(!can_skip_frame(&[FrameDamage::Unchanged], RedrawCauses { force_full: true, ..quiet }));
}

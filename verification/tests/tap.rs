use sherion::pty::output_tap::{ModifyOtherKeys, TapEvent};
use sherion::pty::tap::{apply_tap_event, apply_tap_events, modify_other_keys_report, TapShared};

#[test]
fn mode_reports() {
    assert_eq!(modify_other_keys_report(ModifyOtherKeys::Reset), b"\x1b[>4;0m".to_vec());
    assert_eq!(modify_other_keys_report(ModifyOtherKeys::EnableExceptWellDefined), b"\x1b[>4;1m".to_vec());
    assert_eq!(modify_other_keys_report(ModifyOtherKeys::EnableAll), b"\x1b[>4;2m".to_vec());
}

#[test]
fn events_update_the_shared_state_in_order() {
    let mut shared = TapShared { cwd: None, modify_other_keys: ModifyOtherKeys::Reset };
    let replies = apply_tap_events(
        &mut shared,
        vec![
            TapEvent::QueryModifyOtherKeys,
            TapEvent::ModifyOtherKeys(ModifyOtherKeys::EnableAll),
            TapEvent::Cwd("/srv".to_owned()),
            TapEvent::QueryModifyOtherKeys,
        ],
    );
    assert_eq!(replies, vec![b"\x1b[>4;0m".to_vec(), b"\x1b[>4;2m".to_vec()]);
    assert_eq!(shared.cwd.as_deref(), Some("/srv"));
    assert_eq!(shared.modify_other_keys, ModifyOtherKeys::EnableAll);
    assert_eq!(apply_tap_event(&mut shared, TapEvent::Cwd("/x".to_owned())), None);
    assert_eq!(shared.cwd.as_deref(), Some("/x"));
}

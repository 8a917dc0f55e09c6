use sherion::config::BellConfig;
use sherion::tabs::TabId;
use sherion::terminal_events::{clipboard_load_text, terminal_event_work, ClipboardKind, TermEventKind, WindowWork};

fn bell(visual: bool, audible: bool, urgency: bool) -> BellConfig {
    BellConfig { visual, audible, urgency }
}

fn work(event: TermEventKind) -> Vec<WindowWork> {
    terminal_event_work(event, TabId(7), &BellConfig::default(), true, 0, 1_000)
}

#[test]
fn wakeup_follows_output_only_at_the_bottom_with_follow_on() {
    assert_eq!(work(TermEventKind::Wakeup), vec![WindowWork::ScrollToBottom, WindowWork::Redraw]);
    let scrolled = terminal_event_work(TermEventKind::Wakeup, TabId(7), &BellConfig::default(), true, 3, 0);
    assert_eq!(scrolled, vec![WindowWork::Redraw]);
    let off = terminal_event_work(TermEventKind::Wakeup, TabId(7), &BellConfig::default(), false, 0, 0);
    assert_eq!(off, vec![WindowWork::Redraw]);
}

#[test]
fn titles_set_and_reset_to_tab_id() {
    assert_eq!(
        work(TermEventKind::Title("vim".to_owned())),
        vec![WindowWork::SetTabTitle("vim".to_owned()), WindowWork::RefreshTitles, WindowWork::Redraw]
    );
    assert_eq!(
        work(TermEventKind::ResetTitle),
        vec![WindowWork::SetTabTitle("Tab 7".to_owned()), WindowWork::RefreshTitles, WindowWork::Redraw]
    );
    let reset = terminal_event_work(TermEventKind::ResetTitle, TabId(120), &BellConfig::default(), true, 0, 0);
    assert_eq!(reset[0], WindowWork::SetTabTitle("Tab 120".to_owned()));
}

#[test]
fn bell_flashes_sounds_and_asks_for_attention_as_configured() {
    let all = terminal_event_work(TermEventKind::Bell, TabId(1), &bell(true, true, true), true, 0, 1_000);
    assert_eq!(
        all,
        vec![WindowWork::FlashBellUntil(1_150), WindowWork::Redraw, WindowWork::PlayBell, WindowWork::RequestAttention]
    );
    let urgent = terminal_event_work(TermEventKind::Bell, TabId(1), &bell(false, false, true), true, 0, u64::MAX);
    assert_eq!(urgent, vec![WindowWork::RequestAttention]);
    let quiet = terminal_event_work(TermEventKind::Bell, TabId(1), &bell(false, false, false), true, 0, 0);
    assert!(quiet.is_empty());
}

#[test]
fn pty_writes_blink_clipboards_and_colours_pass_through() {
    assert_eq!(work(TermEventKind::PtyWrite("\x1b[0n".to_owned())), vec![WindowWork::WriteToPty("\x1b[0n".to_owned())]);
    assert_eq!(work(TermEventKind::CursorBlinkingChange), vec![WindowWork::ResetCursorBlink, WindowWork::Redraw]);
    assert_eq!(
        work(TermEventKind::ClipboardStore(ClipboardKind::Selection, "x".to_owned())),
        vec![WindowWork::StoreClipboard(ClipboardKind::Selection, "x".to_owned())]
    );
    assert_eq!(
        work(TermEventKind::ClipboardLoad(ClipboardKind::Clipboard)),
        vec![WindowWork::AnswerClipboard(ClipboardKind::Clipboard)]
    );
    assert_eq!(work(TermEventKind::ColorRequest(257)), vec![WindowWork::AnswerColor(257)]);
    assert!(work(TermEventKind::Exit).is_empty());
    assert!(work(TermEventKind::Other).is_empty());
}

#[test]
fn clipboard_answers_are_sanitized_when_asked() {
    let raw = "ls\r\nrm -rf /\x1b[201~\x07\tok".to_owned();
    assert_eq!(clipboard_load_text(Some(raw.clone()), true), "ls\nrm -rf /[201~\tok");
    assert_eq!(clipboard_load_text(Some(raw.clone()), false), raw);
    assert_eq!(clipboard_load_text(None, true), "");
    assert_eq!(clipboard_load_text(None, false), "");
}

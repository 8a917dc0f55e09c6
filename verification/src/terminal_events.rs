//! What a window does when one of its tabs' terminals reports an event: the
//! decisions, as a list of work for the window to carry out. The window
//! turns the terminal's own event (whose reply closures it keeps) into a
//! `TermEventKind`, and answers clipboard and colour requests with the text
//! and colour that the work names.

use vstd::prelude::*;

use crate::clipboard::{paste_filtered, paste_keeps, sanitize_paste, unified_newlines};
use crate::config::BellConfig;
use crate::tabs::TabId;
use crate::text::{decimal_chars, push_decimal_chars, string_from_chars};
use crate::timers::BELL_FLASH_MS;

verus! {

/// Which clipboard a program names: the system clipboard or the primary
/// selection.
#[derive(Clone, Copy, Debug, PartialEq, Eq, Structural)]
pub enum ClipboardKind {
    Clipboard,
    Selection,
}

/// An event of a tab's terminal, as plain values.
#[derive(Clone, Debug)]
pub enum TermEventKind {
    /// New output arrived.
    Wakeup,
    /// The program set the title.
    Title(String),
    /// The program reset the title.
    ResetTitle,
    /// The terminal answers the program (a report it asked for).
    PtyWrite(String),
    Bell,
    /// The program switched cursor blinking on or off.
    CursorBlinkingChange,
    /// The program stores text in a clipboard (OSC 52).
    ClipboardStore(ClipboardKind, String),
    /// The program asks for a clipboard's text (OSC 52).
    ClipboardLoad(ClipboardKind),
    /// The program asks for the colour of a palette entry.
    ColorRequest(usize),
    /// The terminal shut down.
    Exit,
    /// Anything else: nothing to do.
    Other,
}

pub enum TermEventView {
    Wakeup,
    Title(Seq<char>),
    ResetTitle,
    PtyWrite(Seq<char>),
    Bell,
    CursorBlinkingChange,
    ClipboardStore(ClipboardKind, Seq<char>),
    ClipboardLoad(ClipboardKind),
    ColorRequest(usize),
    Exit,
    Other,
}

impl View for TermEventKind {
    type V = TermEventView;

    open spec fn view(&self) -> TermEventView {
        match self {
            TermEventKind::Wakeup => TermEventView::Wakeup,
            TermEventKind::Title(t) => TermEventView::Title(t@),
            TermEventKind::ResetTitle => TermEventView::ResetTitle,
            TermEventKind::PtyWrite(d) => TermEventView::PtyWrite(d@),
            TermEventKind::Bell => TermEventView::Bell,
            TermEventKind::CursorBlinkingChange => TermEventView::CursorBlinkingChange,
            TermEventKind::ClipboardStore(k, t) => TermEventView::ClipboardStore(*k, t@),
            TermEventKind::ClipboardLoad(k) => TermEventView::ClipboardLoad(*k),
            TermEventKind::ColorRequest(i) => TermEventView::ColorRequest(*i),
            TermEventKind::Exit => TermEventView::Exit,
            TermEventKind::Other => TermEventView::Other,
        }
    }
}

/// One thing the window does for a terminal event, in order.
#[derive(Clone, Debug, PartialEq, Eq)]
pub enum WindowWork {
    /// The tab's terminal scrolls to the bottom of its output.
    ScrollToBottom,
    /// The tab takes this title.
    SetTabTitle(String),
    /// The window title follows the active tab again and the tab strip is
    /// drawn again.
    RefreshTitles,
    /// These bytes go to the tab's PTY.
    WriteToPty(String),
    /// The visual bell shows until this time (milliseconds).
    FlashBellUntil(u64),
    /// The bell sounds.
    PlayBell,
    /// The window asks for the user's attention.
    RequestAttention,
    /// The cursor blink starts a new phase.
    ResetCursorBlink,
    /// The text goes to this clipboard.
    StoreClipboard(ClipboardKind, String),
    /// This clipboard is read and the program answered with
    /// `clipboard_load_text` of what it holds.
    AnswerClipboard(ClipboardKind),
    /// The program is answered with the colour of this palette entry.
    AnswerColor(usize),
    /// The window draws again.
    Redraw,
}

pub enum WindowWorkView {
    ScrollToBottom,
    SetTabTitle(Seq<char>),
    RefreshTitles,
    WriteToPty(Seq<char>),
    FlashBellUntil(u64),
    PlayBell,
    RequestAttention,
    ResetCursorBlink,
    StoreClipboard(ClipboardKind, Seq<char>),
    AnswerClipboard(ClipboardKind),
    AnswerColor(usize),
    Redraw,
}

impl View for WindowWork {
    type V = WindowWorkView;

    open spec fn view(&self) -> WindowWorkView {
        match self {
            WindowWork::ScrollToBottom => WindowWorkView::ScrollToBottom,
            WindowWork::SetTabTitle(t) => WindowWorkView::SetTabTitle(t@),
            WindowWork::RefreshTitles => WindowWorkView::RefreshTitles,
            WindowWork::WriteToPty(d) => WindowWorkView::WriteToPty(d@),
            WindowWork::FlashBellUntil(u) => WindowWorkView::FlashBellUntil(*u),
            WindowWork::PlayBell => WindowWorkView::PlayBell,
            WindowWork::RequestAttention => WindowWorkView::RequestAttention,
            WindowWork::ResetCursorBlink => WindowWorkView::ResetCursorBlink,
            WindowWork::StoreClipboard(k, t) => WindowWorkView::StoreClipboard(*k, t@),
            WindowWork::AnswerClipboard(k) => WindowWorkView::AnswerClipboard(*k),
            WindowWork::AnswerColor(i) => WindowWorkView::AnswerColor(*i),
            WindowWork::Redraw => WindowWorkView::Redraw,
        }
    }
}

/// The title a tab falls back to when its program resets the title.
pub open spec fn fallback_title(tab_id: TabId) -> Seq<char> {
    seq!['T', 'a', 'b', ' '] + decimal_chars(tab_id.0 as nat)
}

/// The work for a terminal event of tab `tab_id`:
/// - new output: the view follows it to the bottom when follow-output is on
///   and the view is at the bottom already, and the window draws again;
/// - a title, or its reset (to `Tab <id>`): the tab takes it, the titles
///   are refreshed, and the window draws again;
/// - an answer to the program: it goes to the PTY;
/// - the bell: a flash for `BELL_FLASH_MS` (visual), a sound (audible), an
///   attention request (urgency), each as configured;
/// - a change of cursor blinking: a new blink phase, and a redraw;
/// - clipboard stores and loads, and colour requests: to and from the
///   clipboard the program named, or the palette entry it asked for;
/// - anything else: nothing.
pub open spec fn terminal_event_spec(
    event: TermEventView,
    tab_id: TabId,
    bell: BellConfig,
    follow_output: bool,
    display_offset: usize,
    now_ms: u64,
) -> Seq<WindowWorkView> {
    match event {
        TermEventView::Wakeup => if follow_output && display_offset == 0 {
            seq![WindowWorkView::ScrollToBottom, WindowWorkView::Redraw]
        } else {
            seq![WindowWorkView::Redraw]
        },
        TermEventView::Title(t) => seq![
            WindowWorkView::SetTabTitle(t),
            WindowWorkView::RefreshTitles,
            WindowWorkView::Redraw,
        ],
        TermEventView::ResetTitle => seq![
            WindowWorkView::SetTabTitle(fallback_title(tab_id)),
            WindowWorkView::RefreshTitles,
            WindowWorkView::Redraw,
        ],
        TermEventView::PtyWrite(d) => seq![WindowWorkView::WriteToPty(d)],
        TermEventView::Bell => {
            let flash: Seq<WindowWorkView> = if bell.visual {
                seq![WindowWorkView::FlashBellUntil((now_ms + BELL_FLASH_MS) as u64), WindowWorkView::Redraw]
            } else {
                Seq::empty()
            };
            let sound: Seq<WindowWorkView> = if bell.audible {
                seq![WindowWorkView::PlayBell]
            } else {
                Seq::empty()
            };
            let urgent: Seq<WindowWorkView> = if bell.urgency {
                seq![WindowWorkView::RequestAttention]
            } else {
                Seq::empty()
            };
            flash + sound + urgent
        },
        TermEventView::CursorBlinkingChange => seq![WindowWorkView::ResetCursorBlink, WindowWorkView::Redraw],
        TermEventView::ClipboardStore(k, t) => seq![WindowWorkView::StoreClipboard(k, t)],
        TermEventView::ClipboardLoad(k) => seq![WindowWorkView::AnswerClipboard(k)],
        TermEventView::ColorRequest(i) => seq![WindowWorkView::AnswerColor(i)],
        TermEventView::Exit => Seq::empty(),
        TermEventView::Other => Seq::empty(),
    }
}

/// The views of a list of work.
pub open spec fn work_views(v: Seq<WindowWork>) -> Seq<WindowWorkView> {
    v.map_values(|w: WindowWork| w@)
}

/// The work for a terminal event of tab `tab_id` (see `terminal_event_spec`);
/// `display_offset` is how far the tab's view is scrolled back and `now_ms`
/// the window's clock.
pub fn terminal_event_work(
    event: TermEventKind,
    tab_id: TabId,
    bell: &BellConfig,
    follow_output: bool,
    display_offset: usize,
    now_ms: u64,
) -> (r: Vec<WindowWork>)
    requires
        event@ is Bell && bell.visual ==> now_ms <= u64::MAX - BELL_FLASH_MS,
    ensures
        work_views(r@) == terminal_event_spec(event@, tab_id, *bell, follow_output, display_offset, now_ms),
{
    let ghost ev = event@;
    let mut out: Vec<WindowWork> = Vec::new();
    match event {
        TermEventKind::Wakeup => {
            if follow_output && display_offset == 0 {
                out.push(WindowWork::ScrollToBottom);
            }
            out.push(WindowWork::Redraw);
        },
        TermEventKind::Title(t) => {
            out.push(WindowWork::SetTabTitle(t));
            out.push(WindowWork::RefreshTitles);
            out.push(WindowWork::Redraw);
        },
        TermEventKind::ResetTitle => {
            let mut chars: Vec<char> = vec!['T', 'a', 'b', ' '];
            push_decimal_chars(&mut chars, tab_id.0 as u64);
            let title = string_from_chars(chars.as_slice());
            out.push(WindowWork::SetTabTitle(title));
            out.push(WindowWork::RefreshTitles);
            out.push(WindowWork::Redraw);
        },
        TermEventKind::PtyWrite(d) => {
            out.push(WindowWork::WriteToPty(d));
        },
        TermEventKind::Bell => {
            if bell.visual {
                out.push(WindowWork::FlashBellUntil(now_ms + BELL_FLASH_MS));
                out.push(WindowWork::Redraw);
            }
            let ghost after_flash = out@;
            if bell.audible {
                out.push(WindowWork::PlayBell);
            }
            let ghost after_sound = out@;
            if bell.urgency {
                out.push(WindowWork::RequestAttention);
            }
            proof {
                let flash: Seq<WindowWorkView> = if bell.visual {
                    seq![WindowWorkView::FlashBellUntil((now_ms + BELL_FLASH_MS) as u64), WindowWorkView::Redraw]
                } else {
                    Seq::empty()
                };
                let sound: Seq<WindowWorkView> = if bell.audible {
                    seq![WindowWorkView::PlayBell]
                } else {
                    Seq::empty()
                };
                assert(work_views(after_flash) =~= flash);
                assert(work_views(after_sound) =~= flash + sound);
            }
        },
        TermEventKind::CursorBlinkingChange => {
            out.push(WindowWork::ResetCursorBlink);
            out.push(WindowWork::Redraw);
        },
        TermEventKind::ClipboardStore(k, t) => {
            out.push(WindowWork::StoreClipboard(k, t));
        },
        TermEventKind::ClipboardLoad(k) => {
            out.push(WindowWork::AnswerClipboard(k));
        },
        TermEventKind::ColorRequest(i) => {
            out.push(WindowWork::AnswerColor(i));
        },
        TermEventKind::Exit => {},
        TermEventKind::Other => {},
    }
    assert(work_views(out@) =~= terminal_event_spec(ev, tab_id, *bell, follow_output, display_offset, now_ms));
    out
}

/// The characters of a clipboard's text; an empty or unreadable clipboard
/// gives none.
pub open spec fn text_or_empty(text: Option<String>) -> Seq<char> {
    match text {
        Some(t) => t@,
        None => Seq::empty(),
    }
}

/// The text a program that asked for a clipboard is answered with: the
/// clipboard's text (none when it could not be read), sanitized as a paste
/// is when `sanitize` is on, so that the answer then holds no carriage
/// return and no control character but newline and tab.
pub fn clipboard_load_text(text: Option<String>, sanitize: bool) -> (r: String)
    ensures
        r@ == (if sanitize {
            paste_filtered(unified_newlines(text_or_empty(text)))
        } else {
            text_or_empty(text)
        }),
        sanitize ==> forall|i: int| 0 <= i < r@.len() ==> paste_keeps(#[trigger] r@[i]) && r@[i] != '\r',
{
    let text = match text {
        Some(t) => t,
        None => String::new(),
    };
    if sanitize {
        sanitize_paste(text.as_str())
    } else {
        text
    }
}

} // verus!

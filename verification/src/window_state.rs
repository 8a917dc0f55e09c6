//! Window logic that decides without drawing: view modes, the command
//! palette (its entries, their fuzzy ranking and labels), prompt detection
//! and whole-word search in a grid row.

use vstd::prelude::*;

use crate::config::{ThemeMode, ViewModeConfig};
use crate::input::{KeyAction, KeyActionView};
use crate::keybindings::{chord_label, first_chord_for, parsed_bindings, binding_sources, KeybindingsConfig};
use crate::menu::{MenuAction, MenuEntry, MenuEntryView};
use crate::tabs::TabId;
use crate::text::{chars_of, decimal_chars, lowered, lower_chars, push_decimal_chars, trim_back};
use regex::{Regex, RegexBuilder};

verus! {

/// How a window shows its tabs: one terminal, or a grid of all of them.
#[derive(Clone, Copy, Debug, PartialEq, Eq, Structural)]
pub enum ViewMode {
    Single,
    Grid,
}

impl Default for ViewMode {
    fn default() -> (r: Self)
        ensures
            r == ViewMode::Single,
    {
        ViewMode::Single
    }
}

impl From<ViewModeConfig> for ViewMode {
    fn from(value: ViewModeConfig) -> (r: Self) {
        match value {
            ViewModeConfig::Single => ViewMode::Single,
            ViewModeConfig::Grid => ViewMode::Grid,
        }
    }
}

impl vstd::std_specs::convert::FromSpecImpl<ViewModeConfig> for ViewMode {
    open spec fn obeys_from_spec() -> bool {
        true
    }

    open spec fn from_spec(value: ViewModeConfig) -> ViewMode {
        match value {
            ViewModeConfig::Single => ViewMode::Single,
            ViewModeConfig::Grid => ViewMode::Grid,
        }
    }
}

impl From<ViewMode> for ViewModeConfig {
    fn from(value: ViewMode) -> (r: Self) {
        match value {
            ViewMode::Single => ViewModeConfig::Single,
            ViewMode::Grid => ViewModeConfig::Grid,
        }
    }
}

impl vstd::std_specs::convert::FromSpecImpl<ViewMode> for ViewModeConfig {
    open spec fn obeys_from_spec() -> bool {
        true
    }

    open spec fn from_spec(value: ViewMode) -> ViewModeConfig {
        match value {
            ViewMode::Single => ViewModeConfig::Single,
            ViewMode::Grid => ViewModeConfig::Grid,
        }
    }
}

/// What a click in the tab strip asks of the application.
#[derive(Clone, Copy, Debug, PartialEq, Eq, Structural)]
pub enum TabStripAction {
    NoAction,
    NewTab,
    Detach(TabId),
    WindowEmpty,
}

/// What a menu choice asks of the application rather than of the window.
#[derive(Clone, Debug)]
pub enum MenuAppAction {
    NewTab,
    DuplicateTab,
    CloseTab,
    DetachTab,
    Quit,
    Theme(ThemeMode),
    ToggleAlwaysOnTop,
    SwitchProfile(String),
}

/// `On` or `Off`.
pub open spec fn on_off(b: bool) -> Seq<char> {
    if b {
        "On"@
    } else {
        "Off"@
    }
}

/// The zoom entry's label: `Zoom In (<percent>%)`.
pub open spec fn zoom_label(percent: u32) -> Seq<char> {
    "Zoom In ("@ + decimal_chars(percent as nat) + "%)"@
}

/// The window menu: the tab entries, the edit entries with the
/// follow-output switch, the view and theme choices, the zoom entries (the
/// first showing the zoom as a percentage), the opacity slider, the perf
/// overlay, fullscreen and always-on-top switches, and Quit, in groups
/// parted by separators.
pub open spec fn menu_entries(
    follow_output: bool,
    view: ViewMode,
    theme: ThemeMode,
    zoom_percent: u32,
    opacity_percent: u32,
    perf_overlay: bool,
    always_on_top: bool,
) -> Seq<MenuEntryView> {
    seq![
        MenuEntryView::Action(MenuAction::NewTab, "New Tab"@),
        MenuEntryView::Action(MenuAction::DuplicateTab, "Duplicate Tab"@),
        MenuEntryView::Action(MenuAction::RenameTab, "Rename Tab"@),
        MenuEntryView::Action(MenuAction::ToggleTabPin, "Pin / Unpin Tab"@),
        MenuEntryView::Action(MenuAction::CycleTabColor, "Set Tab Color"@),
        MenuEntryView::Action(MenuAction::CloseTab, "Close Tab"@),
        MenuEntryView::Action(MenuAction::DetachTab, "Move Tab to New Window"@),
        MenuEntryView::Separator,
        MenuEntryView::Action(MenuAction::Copy, "Copy"@),
        MenuEntryView::Action(MenuAction::Paste, "Paste"@),
        MenuEntryView::Action(MenuAction::ClearScrollback, "Clear Scrollback"@),
        MenuEntryView::Action(MenuAction::ToggleFollowOutput, "Scroll on Output: "@ + on_off(follow_output)),
        MenuEntryView::Separator,
        MenuEntryView::ViewSelector(view),
        MenuEntryView::ThemeSelector(theme),
        MenuEntryView::Separator,
        MenuEntryView::Action(MenuAction::ZoomIn, zoom_label(zoom_percent)),
        MenuEntryView::Action(MenuAction::ZoomOut, "Zoom Out"@),
        MenuEntryView::Action(MenuAction::ZoomReset, "Reset Zoom"@),
        MenuEntryView::Separator,
        MenuEntryView::OpacitySlider(opacity_percent),
        MenuEntryView::Action(MenuAction::TogglePerfOverlay, "Perf Overlay: "@ + on_off(perf_overlay)),
        MenuEntryView::Action(MenuAction::ToggleFullscreen, "Toggle Fullscreen"@),
        MenuEntryView::Action(MenuAction::ToggleAlwaysOnTop, "Always on Top: "@ + on_off(always_on_top)),
        MenuEntryView::Separator,
        MenuEntryView::Action(MenuAction::Quit, "Quit"@),
    ]
}

fn text_joined(a: &str, b: &str) -> (r: String)
    ensures
        r@ == a@ + b@,
{
    let mut out = chars_of(a);
    let tail = chars_of(b);
    let mut i: usize = 0;
    while i < tail.len()
        invariant
            i <= tail@.len(),
            tail@ == b@,
            out@ == a@ + tail@.take(i as int),
        decreases tail@.len() - i,
    {
        out.push(tail[i]);
        i += 1;
        assert(out@ =~= a@ + tail@.take(i as int));
    }
    assert(tail@.take(tail@.len() as int) =~= tail@);
    crate::text::string_from_chars(&out)
}

fn switch_label(prefix: &str, on: bool) -> (r: String)
    ensures
        r@ == prefix@ + on_off(on),
{
    if on {
        text_joined(prefix, "On")
    } else {
        text_joined(prefix, "Off")
    }
}

fn zoom_label_text(percent: u32) -> (r: String)
    ensures
        r@ == zoom_label(percent),
{
    let mut out = chars_of("Zoom In (");
    push_decimal_chars(&mut out, percent as u64);
    let tail = chars_of("%)");
    let mut i: usize = 0;
    let ghost head = out@;
    while i < tail.len()
        invariant
            i <= tail@.len(),
            tail@ == "%)"@,
            out@ == head + tail@.take(i as int),
        decreases tail@.len() - i,
    {
        out.push(tail[i]);
        i += 1;
        assert(out@ =~= head + tail@.take(i as int));
    }
    assert(tail@.take(tail@.len() as int) =~= tail@);
    assert(out@ =~= zoom_label(percent));
    crate::text::string_from_chars(&out)
}

fn action_entry(action: MenuAction, label: &str) -> (r: MenuEntry)
    ensures
        r@ == MenuEntryView::Action(action, label@),
{
    MenuEntry::Action { action, label: label.to_owned() }
}

/// The window menu (see `menu_entries`); the zoom and the opacity come as
/// whole percentages.
pub fn build_menu_entries(
    follow_output: bool,
    view: ViewMode,
    theme: ThemeMode,
    zoom_percent: u32,
    opacity_percent: u32,
    perf_overlay: bool,
    always_on_top: bool,
) -> (r: Vec<MenuEntry>)
    ensures
        r@.map_values(|e: MenuEntry| e@) == menu_entries(
            follow_output,
            view,
            theme,
            zoom_percent,
            opacity_percent,
            perf_overlay,
            always_on_top,
        ),
{
    let mut v: Vec<MenuEntry> = Vec::new();
    v.push(action_entry(MenuAction::NewTab, "New Tab"));
    v.push(action_entry(MenuAction::DuplicateTab, "Duplicate Tab"));
    v.push(action_entry(MenuAction::RenameTab, "Rename Tab"));
    v.push(action_entry(MenuAction::ToggleTabPin, "Pin / Unpin Tab"));
    v.push(action_entry(MenuAction::CycleTabColor, "Set Tab Color"));
    v.push(action_entry(MenuAction::CloseTab, "Close Tab"));
    v.push(action_entry(MenuAction::DetachTab, "Move Tab to New Window"));
    v.push(MenuEntry::Separator);
    v.push(action_entry(MenuAction::Copy, "Copy"));
    v.push(action_entry(MenuAction::Paste, "Paste"));
    v.push(action_entry(MenuAction::ClearScrollback, "Clear Scrollback"));
    v.push(MenuEntry::Action {
        action: MenuAction::ToggleFollowOutput,
        label: switch_label("Scroll on Output: ", follow_output),
    });
    v.push(MenuEntry::Separator);
    v.push(MenuEntry::ViewSelector { current: view });
    v.push(MenuEntry::ThemeSelector { current: theme });
    v.push(MenuEntry::Separator);
    v.push(MenuEntry::Action { action: MenuAction::ZoomIn, label: zoom_label_text(zoom_percent) });
    v.push(action_entry(MenuAction::ZoomOut, "Zoom Out"));
    v.push(action_entry(MenuAction::ZoomReset, "Reset Zoom"));
    v.push(MenuEntry::Separator);
    v.push(MenuEntry::OpacitySlider { percent: opacity_percent });
    v.push(MenuEntry::Action {
        action: MenuAction::TogglePerfOverlay,
        label: switch_label("Perf Overlay: ", perf_overlay),
    });
    v.push(action_entry(MenuAction::ToggleFullscreen, "Toggle Fullscreen"));
    v.push(MenuEntry::Action {
        action: MenuAction::ToggleAlwaysOnTop,
        label: switch_label("Always on Top: ", always_on_top),
    });
    v.push(MenuEntry::Separator);
    v.push(action_entry(MenuAction::Quit, "Quit"));
    assert(v@.map_values(|e: MenuEntry| e@) =~= menu_entries(
        follow_output,
        view,
        theme,
        zoom_percent,
        opacity_percent,
        perf_overlay,
        always_on_top,
    ));
    v
}

/// Menu entries that leave the menu open when chosen: the theme, view,
/// overlay, fullscreen, follow-output and zoom entries.
pub open spec fn keeps_menu_open(a: MenuAction) -> bool {
    match a {
        MenuAction::ThemeLight | MenuAction::ThemeDark | MenuAction::ThemeAuto | MenuAction::ViewSingle
        | MenuAction::ViewGrid | MenuAction::TogglePerfOverlay | MenuAction::ToggleFullscreen
        | MenuAction::ToggleFollowOutput | MenuAction::ZoomIn | MenuAction::ZoomOut
        | MenuAction::ZoomReset => true,
        _ => false,
    }
}

/// Whether choosing `action` leaves the menu open (see `keeps_menu_open`).
pub fn menu_keeps_open(action: MenuAction) -> (r: bool)
    ensures
        r == keeps_menu_open(action),
{
    match action {
        MenuAction::ThemeLight | MenuAction::ThemeDark | MenuAction::ThemeAuto | MenuAction::ViewSingle
        | MenuAction::ViewGrid | MenuAction::TogglePerfOverlay | MenuAction::ToggleFullscreen
        | MenuAction::ToggleFollowOutput | MenuAction::ZoomIn | MenuAction::ZoomOut
        | MenuAction::ZoomReset => true,
        _ => false,
    }
}

/// What a menu entry asks of the application: tabs made, duplicated,
/// closed or detached, the theme, always-on-top, quitting; `None` for the
/// entries that the window carries out itself.
pub open spec fn menu_app_request(a: MenuAction) -> Option<MenuAppAction> {
    match a {
        MenuAction::NewTab => Some(MenuAppAction::NewTab),
        MenuAction::DuplicateTab => Some(MenuAppAction::DuplicateTab),
        MenuAction::CloseTab => Some(MenuAppAction::CloseTab),
        MenuAction::DetachTab => Some(MenuAppAction::DetachTab),
        MenuAction::ToggleAlwaysOnTop => Some(MenuAppAction::ToggleAlwaysOnTop),
        MenuAction::ThemeLight => Some(MenuAppAction::Theme(ThemeMode::Light)),
        MenuAction::ThemeDark => Some(MenuAppAction::Theme(ThemeMode::Dark)),
        MenuAction::ThemeAuto => Some(MenuAppAction::Theme(ThemeMode::Auto)),
        MenuAction::Quit => Some(MenuAppAction::Quit),
        _ => None,
    }
}

/// The application request of a menu entry (see `menu_app_request`).
pub fn menu_action_app_request(action: MenuAction) -> (r: Option<MenuAppAction>)
    ensures
        r == menu_app_request(action),
{
    match action {
        MenuAction::NewTab => Some(MenuAppAction::NewTab),
        MenuAction::DuplicateTab => Some(MenuAppAction::DuplicateTab),
        MenuAction::CloseTab => Some(MenuAppAction::CloseTab),
        MenuAction::DetachTab => Some(MenuAppAction::DetachTab),
        MenuAction::ToggleAlwaysOnTop => Some(MenuAppAction::ToggleAlwaysOnTop),
        MenuAction::ThemeLight => Some(MenuAppAction::Theme(ThemeMode::Light)),
        MenuAction::ThemeDark => Some(MenuAppAction::Theme(ThemeMode::Dark)),
        MenuAction::ThemeAuto => Some(MenuAppAction::Theme(ThemeMode::Auto)),
        MenuAction::Quit => Some(MenuAppAction::Quit),
        _ => None,
    }
}

/// What a key action asks of the application: making, duplicating,
/// closing or detaching a tab; `None` for the actions that the window
/// carries out itself.
pub open spec fn key_app_request(a: KeyActionView) -> Option<MenuAppAction> {
    match a {
        KeyActionView::NewTab => Some(MenuAppAction::NewTab),
        KeyActionView::DuplicateTab => Some(MenuAppAction::DuplicateTab),
        KeyActionView::CloseTab => Some(MenuAppAction::CloseTab),
        KeyActionView::DetachTab => Some(MenuAppAction::DetachTab),
        _ => None,
    }
}

/// The application request of a key action (see `key_app_request`).
pub fn key_action_app_request(action: &KeyAction) -> (r: Option<MenuAppAction>)
    ensures
        r == key_app_request(action@),
{
    match action {
        KeyAction::NewTab => Some(MenuAppAction::NewTab),
        KeyAction::DuplicateTab => Some(MenuAppAction::DuplicateTab),
        KeyAction::CloseTab => Some(MenuAppAction::CloseTab),
        KeyAction::DetachTab => Some(MenuAppAction::DetachTab),
        _ => None,
    }
}

/// The key action a menu entry stands for, whose chord the menu shows as
/// its hint; pinning, tab colours and always-on-top have none.
pub open spec fn menu_key_action(action: MenuAction) -> Option<KeyActionView> {
    match action {
        MenuAction::NewTab => Some(KeyActionView::NewTab),
        MenuAction::DuplicateTab => Some(KeyActionView::DuplicateTab),
        MenuAction::CloseTab => Some(KeyActionView::CloseTab),
        MenuAction::DetachTab => Some(KeyActionView::DetachTab),
        MenuAction::RenameTab => Some(KeyActionView::RenameTab),
        MenuAction::Copy => Some(KeyActionView::Copy),
        MenuAction::Paste => Some(KeyActionView::Paste),
        MenuAction::ClearScrollback => Some(KeyActionView::ClearScrollback),
        MenuAction::ZoomIn => Some(KeyActionView::ZoomIn),
        MenuAction::ZoomOut => Some(KeyActionView::ZoomOut),
        MenuAction::ZoomReset => Some(KeyActionView::ZoomReset),
        MenuAction::ToggleFullscreen => Some(KeyActionView::ToggleFullscreen),
        MenuAction::ToggleFollowOutput => Some(KeyActionView::ScrollPageDown),
        MenuAction::TogglePerfOverlay => Some(KeyActionView::OpenCommandPalette),
        MenuAction::ViewSingle | MenuAction::ViewGrid => Some(KeyActionView::OpenCommandPalette),
        MenuAction::ThemeLight | MenuAction::ThemeDark | MenuAction::ThemeAuto => Some(
            KeyActionView::OpenCommandPalette,
        ),
        MenuAction::ToggleTabPin | MenuAction::CycleTabColor | MenuAction::ToggleAlwaysOnTop => None,
        MenuAction::Quit => Some(KeyActionView::CloseTab),
    }
}

pub fn menu_action_to_key_action(action: MenuAction) -> (r: Option<KeyAction>)
    ensures
        match r {
            Some(k) => menu_key_action(action) == Some(k@),
            None => menu_key_action(action) is None,
        },
{
    match action {
        MenuAction::NewTab => Some(KeyAction::NewTab),
        MenuAction::DuplicateTab => Some(KeyAction::DuplicateTab),
        MenuAction::CloseTab => Some(KeyAction::CloseTab),
        MenuAction::DetachTab => Some(KeyAction::DetachTab),
        MenuAction::RenameTab => Some(KeyAction::RenameTab),
        MenuAction::Copy => Some(KeyAction::Copy),
        MenuAction::Paste => Some(KeyAction::Paste),
        MenuAction::ClearScrollback => Some(KeyAction::ClearScrollback),
        MenuAction::ZoomIn => Some(KeyAction::ZoomIn),
        MenuAction::ZoomOut => Some(KeyAction::ZoomOut),
        MenuAction::ZoomReset => Some(KeyAction::ZoomReset),
        MenuAction::ToggleFullscreen => Some(KeyAction::ToggleFullscreen),
        MenuAction::ToggleFollowOutput => Some(KeyAction::ScrollPageDown),
        MenuAction::TogglePerfOverlay => Some(KeyAction::OpenCommandPalette),
        MenuAction::ViewSingle | MenuAction::ViewGrid => Some(KeyAction::OpenCommandPalette),
        MenuAction::ThemeLight | MenuAction::ThemeDark | MenuAction::ThemeAuto => Some(
            KeyAction::OpenCommandPalette,
        ),
        MenuAction::ToggleTabPin | MenuAction::CycleTabColor | MenuAction::ToggleAlwaysOnTop => None,
        MenuAction::Quit => Some(KeyAction::CloseTab),
    }
}

/// The chord hint shown beside a menu entry: the label of the first chord
/// bound to its key action.
pub open spec fn menu_hint(action: MenuAction, bindings: KeybindingsConfig) -> Option<Seq<char>> {
    match menu_key_action(action) {
        None => None,
        Some(k) => match first_chord_for(parsed_bindings(binding_sources(bindings)), k) {
            Some(c) => Some(chord_label(c)),
            None => None,
        },
    }
}

pub fn menu_action_key_hint(action: MenuAction, bindings: &KeybindingsConfig) -> (r: Option<String>)
    ensures
        match r {
            Some(s) => menu_hint(action, *bindings) == Some(s@),
            None => menu_hint(action, *bindings) is None,
        },
{
    match menu_action_to_key_action(action) {
        Some(key_action) => bindings.chord_label_for_action(key_action),
        None => None,
    }
}

/// Greedy matching of `q` in `l[0..i]`: how many query characters matched,
/// the score so far, and where the last match was. Each match scores 10
/// less its distance from the previous match (from the start, for the
/// first), the distance capped at 9.
pub open spec fn fuzzy_scan(q: Seq<char>, l: Seq<char>, i: nat) -> (nat, int, int)
    decreases i,
{
    if i == 0 {
        (0, 0, 0)
    } else {
        let s = fuzzy_scan(q, l, (i - 1) as nat);
        let idx = i - 1;
        if s.0 < q.len() && l[idx] == q[s.0 as int] {
            let gap = if s.0 > 0 { idx - s.2 } else { idx };
            (s.0 + 1, s.1 + 10 - (if gap < 9 { gap } else { 9 }), idx)
        } else {
            s
        }
    }
}

/// The fuzzy score of `label` for `query`: `Some(0)` for an empty query;
/// otherwise the query must occur in order in the ASCII-lower-cased label.
pub open spec fn fuzzy_score_spec(query: Seq<char>, label: Seq<char>) -> Option<int> {
    if query.len() == 0 {
        Some(0)
    } else {
        let l = lowered(label);
        let s = fuzzy_scan(query, l, l.len());
        if s.0 == query.len() {
            Some(s.1)
        } else {
            None
        }
    }
}

proof fn lemma_fuzzy_scan_bounds(q: Seq<char>, l: Seq<char>, i: nat)
    requires
        i <= l.len(),
    ensures
        fuzzy_scan(q, l, i).0 <= q.len(),
        fuzzy_scan(q, l, i).0 <= i,
        0 <= fuzzy_scan(q, l, i).1 <= 10 * fuzzy_scan(q, l, i).0,
        fuzzy_scan(q, l, i).0 > 0 ==> 0 <= fuzzy_scan(q, l, i).2 < i,
    decreases i,
{
    if i > 0 {
        lemma_fuzzy_scan_bounds(q, l, (i - 1) as nat);
    }
}

/// Scores `label` against `query` (see `fuzzy_score_spec`).
pub fn fuzzy_score(query: &str, label: &str) -> (r: Option<i32>)
    requires
        query@.len() <= 200_000_000,
    ensures
        match r {
            Some(s) => fuzzy_score_spec(query@, label@) == Some(s as int),
            None => fuzzy_score_spec(query@, label@) is None,
        },
{
    let q = chars_of(query);
    if q.len() == 0 {
        return Some(0);
    }
    let raw = chars_of(label);
    let l = lower_chars(&raw);
    let mut qi: usize = 0;
    let mut score: i32 = 0;
    let mut prev: usize = 0;
    let mut i: usize = 0;
    while i < l.len()
        invariant
            i <= l@.len(),
            q@ == query@,
            l@ == lowered(label@),
            q@.len() <= 200_000_000,
            fuzzy_scan(q@, l@, i as nat) == (qi as nat, score as int, prev as int),
        decreases l@.len() - i,
    {
        proof {
            lemma_fuzzy_scan_bounds(q@, l@, i as nat);
        }
        if qi < q.len() && l[i] == q[qi] {
            let gap = if qi > 0 { i - prev } else { i };
            let step: i32 = 10 - (if gap < 9 { gap as i32 } else { 9 });
            score = score + step;
            prev = i;
            qi += 1;
        }
        i += 1;
    }
    if qi == q.len() {
        Some(score)
    } else {
        None
    }
}

/// A command of the palette.
#[derive(Clone, Copy, Debug)]
pub struct PaletteCommand {
    pub label: &'static str,
    pub action: MenuAction,
}

/// The palette's commands, in the order they are listed.
pub fn palette_commands() -> (r: Vec<PaletteCommand>)
    ensures
        r@ == palette_command_list(),
{
    let mut v: Vec<PaletteCommand> = Vec::new();
    v.push(PaletteCommand { label: "New Tab", action: MenuAction::NewTab });
    v.push(PaletteCommand { label: "Duplicate Tab", action: MenuAction::DuplicateTab });
    v.push(PaletteCommand { label: "Rename Tab", action: MenuAction::RenameTab });
    v.push(PaletteCommand { label: "Close Tab", action: MenuAction::CloseTab });
    v.push(PaletteCommand { label: "Move Tab to New Window", action: MenuAction::DetachTab });
    v.push(PaletteCommand { label: "Copy", action: MenuAction::Copy });
    v.push(PaletteCommand { label: "Paste", action: MenuAction::Paste });
    v.push(PaletteCommand { label: "Clear Scrollback", action: MenuAction::ClearScrollback });
    v.push(PaletteCommand { label: "Toggle Scroll on Output", action: MenuAction::ToggleFollowOutput });
    v.push(PaletteCommand { label: "Single Terminal View", action: MenuAction::ViewSingle });
    v.push(PaletteCommand { label: "Grid View", action: MenuAction::ViewGrid });
    v.push(PaletteCommand { label: "Toggle Perf Overlay", action: MenuAction::TogglePerfOverlay });
    v.push(PaletteCommand { label: "Toggle Fullscreen", action: MenuAction::ToggleFullscreen });
    v.push(PaletteCommand { label: "Theme Light", action: MenuAction::ThemeLight });
    v.push(PaletteCommand { label: "Theme Dark", action: MenuAction::ThemeDark });
    v.push(PaletteCommand { label: "Theme Auto", action: MenuAction::ThemeAuto });
    v.push(PaletteCommand { label: "Zoom In", action: MenuAction::ZoomIn });
    v.push(PaletteCommand { label: "Zoom Out", action: MenuAction::ZoomOut });
    v.push(PaletteCommand { label: "Reset Zoom", action: MenuAction::ZoomReset });
    v.push(PaletteCommand { label: "Pin / Unpin Tab", action: MenuAction::ToggleTabPin });
    v.push(PaletteCommand { label: "Set Tab Color", action: MenuAction::CycleTabColor });
    v.push(PaletteCommand { label: "Always on Top", action: MenuAction::ToggleAlwaysOnTop });
    v.push(PaletteCommand { label: "Quit", action: MenuAction::Quit });
    assert(v@ =~= palette_command_list());
    v
}

/// Characters that end a shell prompt.
pub open spec fn prompt_end(c: char) -> bool {
    c == '$' || c == '#' || c == '%' || c == '❯' || c == '➜' || c == 'λ' || c == '»' || c == '>'
}

/// `pat` occurs somewhere in `s`.
pub open spec fn has_pair(s: Seq<char>, a: char, b: char) -> bool {
    exists|i: int| 0 <= i && i + 1 < s.len() && #[trigger] s[i] == a && s[i + 1] == b
}

/// A line looks like a shell prompt: without trailing white space it is not
/// empty and ends in a prompt character, or holds `$ ` or `# `.
pub open spec fn prompt_line(text: Seq<char>) -> bool {
    let t = trim_back(text);
    t.len() > 0 && (prompt_end(t.last()) || has_pair(t, '$', ' ') || has_pair(t, '#', ' '))
}

/// Whether a grid line looks like a shell prompt (see `prompt_line`).
pub fn is_prompt_line(text: &str) -> (r: bool)
    ensures
        r == prompt_line(text@),
{
    let chars = chars_of(text);
    let mut end = chars.len();
    assert(chars@.take(end as int) =~= chars@);
    while end > 0 && crate::text::char_is_whitespace(chars[end - 1])
        invariant
            end <= chars@.len(),
            chars@ == text@,
            trim_back(text@) == trim_back(chars@.take(end as int)),
        decreases end,
    {
        assert(chars@.take(end as int).drop_last() =~= chars@.take(end - 1));
        end -= 1;
    }
    proof {
        if end > 0 {
            assert(!crate::text::is_white_space(chars@.take(end as int).last()));
        }
    }
    let ghost t = chars@.take(end as int);
    assert(trim_back(t) == t);
    if end == 0 {
        return false;
    }
    let last = chars[end - 1];
    if last == '$' || last == '#' || last == '%' || last == '❯' || last == '➜' || last == 'λ' || last == '»'
        || last == '>' {
        return true;
    }
    let mut i: usize = 0;
    while i < end - 1
        invariant
            0 < end <= chars@.len(),
            t == chars@.take(end as int),
            trim_back(text@) == t,
            forall|k: int| 0 <= k < i && k + 1 < t.len() ==> !((#[trigger] t[k] == '$' || t[k] == '#') && t[k + 1] == ' '),
        decreases end - i,
    {
        if (chars[i] == '$' || chars[i] == '#') && chars[i + 1] == ' ' {
            assert(t[i as int] == chars@[i as int]);
            assert(t[i + 1] == chars@[i + 1]);
            if chars[i] == '$' {
                assert(has_pair(t, '$', ' '));
            } else {
                assert(has_pair(t, '#', ' '));
            }
            return true;
        }
        i += 1;
    }
    assert(!has_pair(t, '$', ' '));
    assert(!has_pair(t, '#', ' '));
    false
}

/// Unicode alphanumeric characters: `char::is_alphanumeric`, alphabetic or
/// numeric by the Unicode tables.
pub uninterp spec fn alphanumeric(c: char) -> bool;

/// `char::is_alphanumeric`.
#[verifier::external_body]
fn char_is_alphanumeric(c: char) -> (r: bool)
    ensures
        r == alphanumeric(c),
{
    c.is_alphanumeric()
}

/// A character of a word: alphanumeric or `_`.
pub open spec fn word_char(c: char) -> bool {
    alphanumeric(c) || c == '_'
}

/// The run `row[start..start + len]` is a whole word: no word character
/// just before it or just after it.
pub open spec fn whole_word_at(row: Seq<char>, start: int, len: int) -> bool {
    (start == 0 || !word_char(row[start - 1])) && (start + len >= row.len() || !word_char(row[start + len]))
}

pub fn word_boundary_match(row: &[char], start: usize, len: usize) -> (r: bool)
    requires
        start <= row@.len(),
        start + len <= usize::MAX,
    ensures
        r == whole_word_at(row@, start as int, len as int),
{
    let before_ok = start == 0 || !(char_is_alphanumeric(row[start - 1]) || row[start - 1] == '_');
    let end = start + len;
    let after_ok = end >= row.len() || !(char_is_alphanumeric(row[end]) || row[end] == '_');
    before_ok && after_ok
}

/// The literal matches of `q` in a row, from the left: every start where
/// `q` occurs (overlaps included) that is a whole word when `whole_word`
/// is asked for, as column ranges; none when `q` is longer than the row.
pub open spec fn literal_matches(row: Seq<char>, q: Seq<char>, whole_word: bool, k: nat) -> Seq<(usize, usize)>
    decreases k,
{
    if k == 0 || q.len() > row.len() {
        Seq::empty()
    } else {
        let prev = literal_matches(row, q, whole_word, (k - 1) as nat);
        let start = k - 1;
        if start + q.len() <= row.len() && row.subrange(start, start + q.len()) == q && (!whole_word
            || whole_word_at(row, start, q.len() as int)) {
            prev.push((start as usize, (start + q.len()) as usize))
        } else {
            prev
        }
    }
}

/// The first `k` starts are searched soundly and completely: each reported
/// range is an occurrence of `q` (a whole word when asked for), the ranges
/// come left to right, and every such occurrence starting before `k` is
/// reported.
pub proof fn lemma_literal_matches_exact(row: Seq<char>, q: Seq<char>, whole_word: bool, k: nat)
    requires
        row.len() < usize::MAX,
    ensures
        forall|i: int| 0 <= i < literal_matches(row, q, whole_word, k).len() ==> {
            let m = #[trigger] literal_matches(row, q, whole_word, k)[i];
            &&& m.0 < k
            &&& m.1 == m.0 + q.len()
            &&& row.subrange(m.0 as int, m.1 as int) == q
            &&& (whole_word ==> whole_word_at(row, m.0 as int, q.len() as int))
        },
        forall|i: int, j: int| 0 <= i < j < literal_matches(row, q, whole_word, k).len() ==> (
        #[trigger] literal_matches(row, q, whole_word, k)[i]).0 < (
        #[trigger] literal_matches(row, q, whole_word, k)[j]).0,
        forall|start: int| 0 <= start < k && q.len() <= row.len() && start + q.len() <= row.len() && #[trigger] row.subrange(start, start + q.len())
            == q && (!whole_word || whole_word_at(row, start, q.len() as int)) ==> exists|i: int| 0 <= i < literal_matches(
            row,
            q,
            whole_word,
            k,
        ).len() && (#[trigger] literal_matches(row, q, whole_word, k)[i]).0 == start,
    decreases k,
{
    if k > 0 && q.len() <= row.len() {
        lemma_literal_matches_exact(row, q, whole_word, (k - 1) as nat);
        let prev = literal_matches(row, q, whole_word, (k - 1) as nat);
        let cur = literal_matches(row, q, whole_word, k);
        assert forall|start: int| 0 <= start < k && start + q.len() <= row.len() && #[trigger] row.subrange(start, start + q.len())
            == q && (!whole_word || whole_word_at(row, start, q.len() as int)) implies exists|i: int| 0 <= i < cur.len() && (#[trigger] cur[i]).0 == start by {
            if start < k - 1 {
                let i = choose|i: int| 0 <= i < prev.len() && (#[trigger] prev[i]).0 == start;
                assert(cur[i] == prev[i]);
            } else {
                assert(cur[cur.len() - 1].0 == start);
            }
        }
    }
}

/// The matches of `query` in a grid row (see `literal_matches`); without
/// `case_sensitive` both are compared with ASCII letters lower-cased.
pub open spec fn row_search(row: Seq<char>, query: Seq<char>, case_sensitive: bool, whole_word: bool) -> Seq<(usize, usize)> {
    let r = if case_sensitive { row } else { lowered(row) };
    let q = if case_sensitive { query } else { lowered(query) };
    literal_matches(r, q, whole_word, (r.len() + 1) as nat)
}

/// Finds `query` in one grid row (see `row_search`).
pub fn search_row(row: &[char], query: &str, case_sensitive: bool, whole_word: bool) -> (r: Vec<(usize, usize)>)
    ensures
        r@ == row_search(row@, query@, case_sensitive, whole_word),
{
    let qraw = chars_of(query);
    let q = if case_sensitive { qraw } else { lower_chars(&qraw) };
    let text: Vec<char> = if case_sensitive { crate::text::slice_chars(row, 0, row.len()) } else { lower_chars(row) };
    assert(row@.subrange(0, row@.len() as int) =~= row@);
    let mut out: Vec<(usize, usize)> = Vec::new();
    if q.len() > text.len() {
        assert(row_search(row@, query@, case_sensitive, whole_word) =~= Seq::<(usize, usize)>::empty());
        return out;
    }
    let tl = text.len();
    let last = tl - q.len();
    let mut start: usize = 0;
    let mut done = false;
    while !done
        invariant
            start <= last,
            done ==> start == last,
            text@.len() == tl,
            last + q@.len() == text@.len(),
            text@ == (if case_sensitive { row@ } else { lowered(row@) }),
            q@ == (if case_sensitive { query@ } else { lowered(query@) }),
            out@ == literal_matches(text@, q@, whole_word, (if done { start + 1 } else { start as int }) as nat),
        decreases last - start + (if done { 0int } else { 1 }),
    {
        let mut same = true;
        let mut j: usize = 0;
        while j < q.len()
            invariant
                j <= q@.len(),
                start + q@.len() <= text@.len(),
                text@.len() == tl,
                same == (forall|k: int| 0 <= k < j ==> text@[start + k] == q@[k]),
            decreases q@.len() - j,
        {
            if text[start + j] != q[j] {
                same = false;
            }
            j += 1;
        }
        assert(same == (text@.subrange(start as int, start + q@.len()) == q@)) by {
            if same {
                assert(text@.subrange(start as int, start + q@.len()) =~= q@);
            } else {
                let k = choose|k: int| 0 <= k < q@.len() && text@[start + k] != q@[k];
                assert(text@.subrange(start as int, start + q@.len())[k] != q@[k]);
            }
        }
        if same && (!whole_word || word_boundary_match(&text, start, q.len())) {
            out.push((start, start + q.len()));
        }
        if start == last {
            done = true;
        } else {
            start += 1;
        }
    }
    proof {
        lemma_literal_tail(text@, q@, whole_word, (last + 1) as nat, (text@.len() + 1) as nat);
    }
    out
}

proof fn lemma_literal_tail(row: Seq<char>, q: Seq<char>, whole_word: bool, from: nat, to: nat)
    requires
        from <= to,
        from + q.len() >= row.len() + 1,
        to <= row.len() + 1,
    ensures
        literal_matches(row, q, whole_word, to) == literal_matches(row, q, whole_word, from),
    decreases to - from,
{
    if from < to {
        lemma_literal_tail(row, q, whole_word, from, (to - 1) as nat);
    }
}

/// A match found in the whole grid: its grid line (negative in the
/// history) and its columns.
#[derive(Clone, Copy, Debug, PartialEq, Eq, Structural)]
pub struct GlobalSearchMatch {
    pub grid_line: i32,
    pub start_col: usize,
    pub end_col: usize,
}

pub open spec fn min_usize(a: usize, b: usize) -> usize {
    if a < b { a } else { b }
}

/// The visible matches of the first `k` grid matches, each moved to its
/// viewport row (`grid_line + display_offset`) and cut to the grid width,
/// with the position among them of match `current`, if it is visible.
pub open spec fn visible_matches(
    matches: Seq<GlobalSearchMatch>,
    current: usize,
    display_offset: usize,
    row_count: usize,
    col_count: usize,
    k: nat,
) -> (Seq<crate::search::SearchMatch>, Option<usize>)
    decreases k,
{
    if k == 0 {
        (Seq::empty(), None)
    } else {
        let prev = visible_matches(matches, current, display_offset, row_count, col_count, (k - 1) as nat);
        let m = matches[k - 1];
        let row = m.grid_line + display_offset;
        if row < 0 || row >= row_count {
            prev
        } else {
            let sm = crate::search::SearchMatch {
                row: row as usize,
                start_col: min_usize(m.start_col, col_count),
                end_col: min_usize(m.end_col, col_count),
            };
            (prev.0.push(sm), if k - 1 == current { Some(prev.0.len() as usize) } else { prev.1 })
        }
    }
}

/// The search matches that fall in the viewport (see `visible_matches`).
pub fn populate_search_matches_from_global(
    matches: &[GlobalSearchMatch],
    current_match: usize,
    display_offset: usize,
    row_count: usize,
    col_count: usize,
) -> (r: (Vec<crate::search::SearchMatch>, Option<usize>))
    requires
        display_offset <= i32::MAX,
        forall|i: int| 0 <= i < matches@.len() ==> (#[trigger] matches@[i]).grid_line + display_offset <= i32::MAX,
    ensures
        (r.0@, r.1) == visible_matches(matches@, current_match, display_offset, row_count, col_count, matches@.len()),
{
    let mut out: Vec<crate::search::SearchMatch> = Vec::new();
    let mut active: Option<usize> = None;
    let mut i: usize = 0;
    while i < matches.len()
        invariant
            i <= matches@.len(),
            display_offset <= i32::MAX,
            forall|k: int| 0 <= k < matches@.len() ==> (#[trigger] matches@[k]).grid_line + display_offset <= i32::MAX,
            (out@, active) == visible_matches(matches@, current_match, display_offset, row_count, col_count, i as nat),
        decreases matches@.len() - i,
    {
        let m = matches[i];
        let line: i32 = m.grid_line + display_offset as i32;
        if line >= 0 && (line as usize) < row_count {
            let index = out.len();
            out.push(crate::search::SearchMatch {
                row: line as usize,
                start_col: if m.start_col < col_count { m.start_col } else { col_count },
                end_col: if m.end_col < col_count { m.end_col } else { col_count },
            });
            if i == current_match {
                active = Some(index);
            }
        }
        i += 1;
    }
    (out, active)
}

/// An entry of the command palette.
#[derive(Clone, Debug)]
pub enum PaletteItem {
    Command { label: &'static str, action: MenuAction },
    Tab { id: TabId, title: String },
    Profile { name: String },
}

pub enum PaletteItemView {
    Command(Seq<char>, MenuAction),
    Tab(TabId, Seq<char>),
    Profile(Seq<char>),
}

impl View for PaletteItem {
    type V = PaletteItemView;

    open spec fn view(&self) -> PaletteItemView {
        match self {
            PaletteItem::Command { label, action } => PaletteItemView::Command(label@, *action),
            PaletteItem::Tab { id, title } => PaletteItemView::Tab(*id, title@),
            PaletteItem::Profile { name } => PaletteItemView::Profile(name@),
        }
    }
}

pub open spec fn profile_prefix() -> Seq<char> {
    seq!['P', 'r', 'o', 'f', 'i', 'l', 'e', ':', ' ']
}

pub open spec fn tab_prefix() -> Seq<char> {
    seq!['T', 'a', 'b', ':', ' ']
}

/// The palette shows an entry labelled `label` for the (lower-cased) query.
pub open spec fn palette_shows(q: Seq<char>, label: Seq<char>) -> bool {
    q.len() == 0 || fuzzy_score_spec(q, label) is Some
}

/// The profiles the query shows, in order.
pub open spec fn profile_items(q: Seq<char>, names: Seq<Seq<char>>) -> Seq<PaletteItemView>
    decreases names.len(),
{
    if names.len() == 0 {
        Seq::empty()
    } else {
        let prev = profile_items(q, names.drop_last());
        if palette_shows(q, profile_prefix() + names.last()) {
            prev.push(PaletteItemView::Profile(names.last()))
        } else {
            prev
        }
    }
}

/// The tabs the query shows, in order.
pub open spec fn tab_items(q: Seq<char>, tabs: Seq<(TabId, Seq<char>)>) -> Seq<PaletteItemView>
    decreases tabs.len(),
{
    if tabs.len() == 0 {
        Seq::empty()
    } else {
        let prev = tab_items(q, tabs.drop_last());
        if palette_shows(q, tab_prefix() + tabs.last().1) {
            prev.push(PaletteItemView::Tab(tabs.last().0, tabs.last().1))
        } else {
            prev
        }
    }
}

/// The commands the query shows with their scores (0 for an empty query),
/// in list order.
pub open spec fn scored_commands(q: Seq<char>, cmds: Seq<PaletteCommand>) -> Seq<(i32, PaletteCommand)>
    decreases cmds.len(),
{
    if cmds.len() == 0 {
        Seq::empty()
    } else {
        let prev = scored_commands(q, cmds.drop_last());
        let c = cmds.last();
        if q.len() == 0 {
            prev.push((0i32, c))
        } else {
            match fuzzy_score_spec(q, c.label@) {
                Some(score) => prev.push((score as i32, c)),
                None => prev,
            }
        }
    }
}

/// `x` placed after every element of `s` whose score is at least its own
/// (`s` ordered by descending score).
pub open spec fn insert_by_score(s: Seq<(i32, PaletteCommand)>, x: (i32, PaletteCommand)) -> Seq<(i32, PaletteCommand)>
    decreases s.len(),
{
    if s.len() == 0 {
        seq![x]
    } else if s.last().0 >= x.0 {
        s.push(x)
    } else {
        insert_by_score(s.drop_last(), x).push(s.last())
    }
}

/// `s` ordered by descending score, equal scores keeping their order.
pub open spec fn by_score(s: Seq<(i32, PaletteCommand)>) -> Seq<(i32, PaletteCommand)>
    decreases s.len(),
{
    if s.len() == 0 {
        Seq::empty()
    } else {
        insert_by_score(by_score(s.drop_last()), s.last())
    }
}

/// The palette's entries for a query: matching profiles, then matching
/// tabs, then matching commands, best score first.
pub open spec fn palette_items(
    query: Seq<char>,
    names: Seq<Seq<char>>,
    tabs: Seq<(TabId, Seq<char>)>,
) -> Seq<PaletteItemView> {
    let q = lowered(query);
    let cmds = by_score(scored_commands(q, palette_command_list()));
    profile_items(q, names) + tab_items(q, tabs) + cmds.map_values(
        |c: (i32, PaletteCommand)| PaletteItemView::Command(c.1.label@, c.1.action),
    )
}

/// The palette's commands, in the order they are listed.
pub open spec fn palette_command_list() -> Seq<PaletteCommand> {
    seq![
        PaletteCommand { label: "New Tab", action: MenuAction::NewTab },
        PaletteCommand { label: "Duplicate Tab", action: MenuAction::DuplicateTab },
        PaletteCommand { label: "Rename Tab", action: MenuAction::RenameTab },
        PaletteCommand { label: "Close Tab", action: MenuAction::CloseTab },
        PaletteCommand { label: "Move Tab to New Window", action: MenuAction::DetachTab },
        PaletteCommand { label: "Copy", action: MenuAction::Copy },
        PaletteCommand { label: "Paste", action: MenuAction::Paste },
        PaletteCommand { label: "Clear Scrollback", action: MenuAction::ClearScrollback },
        PaletteCommand { label: "Toggle Scroll on Output", action: MenuAction::ToggleFollowOutput },
        PaletteCommand { label: "Single Terminal View", action: MenuAction::ViewSingle },
        PaletteCommand { label: "Grid View", action: MenuAction::ViewGrid },
        PaletteCommand { label: "Toggle Perf Overlay", action: MenuAction::TogglePerfOverlay },
        PaletteCommand { label: "Toggle Fullscreen", action: MenuAction::ToggleFullscreen },
        PaletteCommand { label: "Theme Light", action: MenuAction::ThemeLight },
        PaletteCommand { label: "Theme Dark", action: MenuAction::ThemeDark },
        PaletteCommand { label: "Theme Auto", action: MenuAction::ThemeAuto },
        PaletteCommand { label: "Zoom In", action: MenuAction::ZoomIn },
        PaletteCommand { label: "Zoom Out", action: MenuAction::ZoomOut },
        PaletteCommand { label: "Reset Zoom", action: MenuAction::ZoomReset },
        PaletteCommand { label: "Pin / Unpin Tab", action: MenuAction::ToggleTabPin },
        PaletteCommand { label: "Set Tab Color", action: MenuAction::CycleTabColor },
        PaletteCommand { label: "Always on Top", action: MenuAction::ToggleAlwaysOnTop },
        PaletteCommand { label: "Quit", action: MenuAction::Quit },
    ]
}

proof fn lemma_insert_by_score(s: Seq<(i32, PaletteCommand)>, x: (i32, PaletteCommand), k: int)
    requires
        0 <= k <= s.len(),
        forall|j: int| k <= j < s.len() ==> (#[trigger] s[j]).0 < x.0,
        k == 0 || s[k - 1].0 >= x.0,
    ensures
        insert_by_score(s, x) == s.take(k).push(x) + s.skip(k),
    decreases s.len(),
{
    if s.len() == 0 {
        assert(s.take(k).push(x) + s.skip(k) =~= seq![x]);
    } else if s.last().0 >= x.0 {
        assert(k == s.len());
        assert(s.take(k).push(x) + s.skip(k) =~= s.push(x));
    } else {
        lemma_insert_by_score(s.drop_last(), x, k);
        assert(s.take(k).push(x) + s.skip(k) =~= (s.drop_last().take(k).push(x) + s.drop_last().skip(k)).push(
            s.last(),
        ));
    }
}

fn insert_scored(v: &mut Vec<(i32, PaletteCommand)>, x: (i32, PaletteCommand))
    ensures
        final(v)@ == insert_by_score(old(v)@, x),
{
    let mut pos = v.len();
    while pos > 0 && v[pos - 1].0 < x.0
        invariant
            pos <= v@.len(),
            v@ == old(v)@,
            forall|j: int| pos <= j < v@.len() ==> (#[trigger] v@[j]).0 < x.0,
        decreases pos,
    {
        pos -= 1;
    }
    proof {
        lemma_insert_by_score(v@, x, pos as int);
    }
    v.insert(pos, x);
    assert(v@ =~= old(v)@.take(pos as int).push(x) + old(v)@.skip(pos as int));
}

/// The label a palette entry is found by: a prefix, then a name.
fn prefixed(prefix: &[char], text: &String) -> (r: String)
    ensures
        r@ == prefix@ + text@,
{
    let t = chars_of(text.as_str());
    let mut all: Vec<char> = Vec::new();
    let mut i: usize = 0;
    while i < prefix.len()
        invariant
            i <= prefix@.len(),
            all@ == prefix@.take(i as int),
        decreases prefix@.len() - i,
    {
        all.push(prefix[i]);
        i += 1;
        assert(all@ =~= prefix@.take(i as int));
    }
    let mut j: usize = 0;
    while j < t.len()
        invariant
            j <= t@.len(),
            all@ == prefix@ + t@.take(j as int),
        decreases t@.len() - j,
    {
        all.push(t[j]);
        j += 1;
        assert(all@ =~= prefix@ + t@.take(j as int));
    }
    assert(prefix@.take(prefix@.len() as int) =~= prefix@);
    assert(t@.take(t@.len() as int) =~= t@);
    crate::text::string_from_chars(&all)
}

/// The palette's entries for `query` (see `palette_items`).
pub fn filtered_palette_items(query: &str, profile_names: &Vec<String>, tabs: &Vec<(TabId, String)>) -> (r: Vec<PaletteItem>)
    requires
        query@.len() <= 200_000_000,
    ensures
        r@.map_values(|i: PaletteItem| i@) == palette_items(
            query@,
            profile_names@.map_values(|s: String| s@),
            tabs@.map_values(|t: (TabId, String)| (t.0, t.1@)),
        ),
{
    let raw = chars_of(query);
    let qv = lower_chars(&raw);
    let q = crate::text::string_from_chars(&qv);
    let empty = qv.len() == 0;
    let ghost qs = lowered(query@);
    let ghost names = profile_names@.map_values(|s: String| s@);
    let ghost tabv = tabs@.map_values(|t: (TabId, String)| (t.0, t.1@));
    let pp = ['P', 'r', 'o', 'f', 'i', 'l', 'e', ':', ' '];
    let tp = ['T', 'a', 'b', ':', ' '];
    assert(pp@ =~= profile_prefix());
    assert(tp@ =~= tab_prefix());
    let mut items: Vec<PaletteItem> = Vec::new();
    let mut i: usize = 0;
    assert(names.take(0) =~= Seq::<Seq<char>>::empty());
    while i < profile_names.len()
        invariant
            i <= profile_names@.len(),
            q@ == qs,
            qs.len() <= 200_000_000,
            empty == (qs.len() == 0),
            pp@ == profile_prefix(),
            names == profile_names@.map_values(|s: String| s@),
            items@.map_values(|it: PaletteItem| it@) == profile_items(qs, names.take(i as int)),
        decreases profile_names@.len() - i,
    {
        assert(names.take(i + 1).drop_last() =~= names.take(i as int));
        let label = prefixed(&pp, &profile_names[i]);
        if empty || fuzzy_score(q.as_str(), label.as_str()).is_some() {
            items.push(PaletteItem::Profile { name: profile_names[i].clone() });
            assert(items@.map_values(|it: PaletteItem| it@) =~= profile_items(qs, names.take(i + 1)));
        }
        i += 1;
    }
    assert(names.take(names.len() as int) =~= names);
    let ghost head = items@.map_values(|it: PaletteItem| it@);
    let mut k: usize = 0;
    assert(tabv.take(0) =~= Seq::<(TabId, Seq<char>)>::empty());
    assert(items@.map_values(|it: PaletteItem| it@) =~= head + tab_items(qs, tabv.take(0)));
    while k < tabs.len()
        invariant
            k <= tabs@.len(),
            q@ == qs,
            qs.len() <= 200_000_000,
            empty == (qs.len() == 0),
            tp@ == tab_prefix(),
            tabv == tabs@.map_values(|t: (TabId, String)| (t.0, t.1@)),
            items@.map_values(|it: PaletteItem| it@) == head + tab_items(qs, tabv.take(k as int)),
        decreases tabs@.len() - k,
    {
        assert(tabv.take(k + 1).drop_last() =~= tabv.take(k as int));
        assert(tabv.take(k + 1).last() == (tabs@[k as int].0, tabs@[k as int].1@));
        let ghost before = items@.map_values(|it: PaletteItem| it@);
        let label = prefixed(&tp, &tabs[k].1);
        if empty || fuzzy_score(q.as_str(), label.as_str()).is_some() {
            let title = tabs[k].1.clone();
            items.push(PaletteItem::Tab { id: tabs[k].0, title });
            assert(items@.map_values(|it: PaletteItem| it@) =~= before.push(
                PaletteItemView::Tab(tabs@[k as int].0, tabs@[k as int].1@),
            ));
            assert(head + tab_items(qs, tabv.take(k + 1)) =~= (head + tab_items(qs, tabv.take(k as int))).push(
                PaletteItemView::Tab(tabs@[k as int].0, tabs@[k as int].1@),
            ));
        }
        k += 1;
    }
    assert(tabv.take(tabv.len() as int) =~= tabv);
    let ghost mid = items@.map_values(|it: PaletteItem| it@);
    let cmds = palette_commands();
    let ghost cl = palette_command_list();
    let mut sorted: Vec<(i32, PaletteCommand)> = Vec::new();
    let mut c: usize = 0;
    assert(cl.take(0) =~= Seq::<PaletteCommand>::empty());
    while c < cmds.len()
        invariant
            c <= cmds@.len(),
            cmds@ == cl,
            q@ == qs,
            qs.len() <= 200_000_000,
            empty == (qs.len() == 0),
            sorted@ == by_score(scored_commands(qs, cl.take(c as int))),
        decreases cmds@.len() - c,
    {
        assert(cl.take(c + 1).drop_last() =~= cl.take(c as int));
        let cmd = cmds[c];
        assert(cl.take(c + 1).last() == cmd);
        let ghost prev = scored_commands(qs, cl.take(c as int));
        if empty {
            assert(scored_commands(qs, cl.take(c + 1)) == prev.push((0i32, cmd)));
            assert(prev.push((0i32, cmd)).drop_last() =~= prev);
            insert_scored(&mut sorted, (0, cmd));
        } else {
            match fuzzy_score(q.as_str(), cmd.label) {
                Some(score) => {
                    assert(scored_commands(qs, cl.take(c + 1)) == prev.push((score, cmd)));
                    assert(prev.push((score, cmd)).drop_last() =~= prev);
                    insert_scored(&mut sorted, (score, cmd));
                },
                None => {
                    assert(scored_commands(qs, cl.take(c + 1)) == prev);
                },
            }
        }
        c += 1;
    }
    assert(cl.take(cl.len() as int) =~= cl);
    let mut m: usize = 0;
    while m < sorted.len()
        invariant
            m <= sorted@.len(),
            items@.map_values(|it: PaletteItem| it@) == mid + sorted@.take(m as int).map_values(
                |x: (i32, PaletteCommand)| PaletteItemView::Command(x.1.label@, x.1.action),
            ),
        decreases sorted@.len() - m,
    {
        let entry = sorted[m];
        let ghost before = items@.map_values(|it: PaletteItem| it@);
        items.push(PaletteItem::Command { label: entry.1.label, action: entry.1.action });
        assert(items@.map_values(|it: PaletteItem| it@) =~= before.push(
            PaletteItemView::Command(entry.1.label@, entry.1.action),
        ));
        assert(sorted@.take(m + 1) =~= sorted@.take(m as int).push(entry));
        m += 1;
        assert(items@.map_values(|it: PaletteItem| it@) =~= mid + sorted@.take(m as int).map_values(
            |x: (i32, PaletteCommand)| PaletteItemView::Command(x.1.label@, x.1.action),
        ));
    }
    assert(sorted@.take(sorted@.len() as int) =~= sorted@);
    assert(items@.map_values(|it: PaletteItem| it@) =~= palette_items(query@, names, tabv));
    items
}

/// The label a palette entry is shown with: tabs and profiles with their
/// prefix; commands with their chord hint after four spaces, when they
/// have one.
pub open spec fn palette_label(item: PaletteItemView, bindings: KeybindingsConfig) -> Seq<char> {
    match item {
        PaletteItemView::Tab(_, title) => tab_prefix() + title,
        PaletteItemView::Profile(name) => profile_prefix() + name,
        PaletteItemView::Command(label, action) => match menu_hint(action, bindings) {
            Some(hint) => label + seq![' ', ' ', ' ', ' '] + hint,
            None => label,
        },
    }
}

/// The labels the palette shows for its entries (see `palette_label`).
pub fn command_palette_labels(items: &Vec<PaletteItem>, bindings: &KeybindingsConfig) -> (r: Vec<String>)
    ensures
        r@.len() == items@.len(),
        forall|i: int| 0 <= i < items@.len() ==> (#[trigger] r@[i])@ == palette_label(items@[i]@, *bindings),
{
    let pp = ['P', 'r', 'o', 'f', 'i', 'l', 'e', ':', ' '];
    let tp = ['T', 'a', 'b', ':', ' '];
    assert(pp@ =~= profile_prefix());
    assert(tp@ =~= tab_prefix());
    let mut out: Vec<String> = Vec::new();
    let mut i: usize = 0;
    while i < items.len()
        invariant
            i <= items@.len(),
            out@.len() == i,
            pp@ == profile_prefix(),
            tp@ == tab_prefix(),
            forall|k: int| 0 <= k < i ==> (#[trigger] out@[k])@ == palette_label(items@[k]@, *bindings),
        decreases items@.len() - i,
    {
        let label = match &items[i] {
            PaletteItem::Tab { title, .. } => prefixed(&tp, title),
            PaletteItem::Profile { name } => prefixed(&pp, name),
            PaletteItem::Command { label, action } => {
                match menu_action_key_hint(*action, bindings) {
                    Some(hint) => {
                        let mut head = chars_of(*label);
                        head.push(' ');
                        head.push(' ');
                        head.push(' ');
                        head.push(' ');
                        assert(head@ =~= label@ + seq![' ', ' ', ' ', ' ']);
                        prefixed(&head, &hint)
                    },
                    None => (*label).to_owned(),
                }
            },
        };
        out.push(label);
        i += 1;
    }
    out
}

/// The selection kept within the entries: the last entry when it ran past
/// them, 0 when there are none.
pub fn clamp_palette_selection(selected: usize, count: usize) -> (r: usize)
    ensures
        r == (if count == 0 { 0 } else if selected >= count { (count - 1) as usize } else { selected }),
{
    if count == 0 {
        0
    } else if selected >= count {
        count - 1
    } else {
        selected
    }
}

/// The selection one entry up, wrapping from the first to the last.
pub open spec fn selection_up(selected: int, count: int) -> int {
    if count == 0 {
        selected
    } else if selected == 0 {
        count - 1
    } else {
        selected - 1
    }
}

/// The selection one entry down, wrapping from the last to the first.
pub open spec fn selection_down(selected: int, count: int) -> int {
    if count == 0 {
        selected
    } else {
        (selected + 1) % count
    }
}

/// Moving the selection down and then up returns to the same entry.
pub proof fn lemma_selection_up_undoes_down(selected: int, count: int)
    requires
        0 <= selected < count,
    ensures
        selection_up(selection_down(selected, count), count) == selected,
        selection_down(selection_up(selected, count), count) == selected,
{
    if selected + 1 < count {
        assert((selected + 1) % count == selected + 1) by (nonlinear_arith)
            requires
                0 <= selected + 1 < count,
        ;
    } else {
        assert((selected + 1) % count == 0) by (nonlinear_arith)
            requires
                selected + 1 == count,
                count > 0,
        ;
    }
    if selected > 0 {
        assert(selected % count == selected) by (nonlinear_arith)
            requires
                0 <= selected < count,
        ;
    } else {
        assert(count % count == 0) by (nonlinear_arith)
            requires
                count > 0,
        ;
    }
}

pub fn palette_select_previous(selected: usize, count: usize) -> (r: usize)
    ensures
        r == selection_up(selected as int, count as int),
{
    if count == 0 {
        selected
    } else if selected == 0 {
        count - 1
    } else {
        selected - 1
    }
}

pub fn palette_select_next(selected: usize, count: usize) -> (r: usize)
    ensures
        r == selection_down(selected as int, count as int),
{
    if count == 0 {
        selected
    } else if count == 1 {
        assert((selected + 1) % 1 == 0) by (nonlinear_arith);
        0
    } else {
        let s = selected % count;
        proof {
            vstd::arithmetic::div_mod::lemma_add_mod_noop(selected as int, 1, count as int);
            vstd::arithmetic::div_mod::lemma_small_mod(1, count as nat);
        }
        (s + 1) % count
    }
}

/// A path as the tab strip shows it: up to 32 characters as they are,
/// longer ones as `...` and their last 29 characters.
pub open spec fn short_path_label(display: Seq<char>) -> Seq<char> {
    if display.len() <= 32 {
        display
    } else {
        seq!['.', '.', '.'] + display.skip(display.len() - 29)
    }
}

/// Shortens a displayed path (see `short_path_label`).
pub fn short_path(display: &str) -> (r: String)
    ensures
        r@ == short_path_label(display@),
{
    let chars = chars_of(display);
    if chars.len() <= 32 {
        return crate::text::string_from_chars(&chars);
    }
    let mut out: Vec<char> = Vec::new();
    out.push('.');
    out.push('.');
    out.push('.');
    let tail = crate::text::slice_chars(&chars, chars.len() - 29, chars.len());
    let mut i: usize = 0;
    while i < tail.len()
        invariant
            i <= tail@.len(),
            out@ == seq!['.', '.', '.'] + tail@.take(i as int),
        decreases tail@.len() - i,
    {
        out.push(tail[i]);
        i += 1;
        assert(out@ =~= seq!['.', '.', '.'] + tail@.take(i as int));
    }
    assert(tail@.take(tail@.len() as int) =~= tail@);
    assert(tail@ =~= display@.skip(display@.len() - 29));
    crate::text::string_from_chars(&out)
}

/// How far to scroll the display so that grid line `line` shows: the
/// viewport spans lines `-display_offset` to `-display_offset + screen_lines - 1`;
/// negative scrolls down towards the bottom, 0 when the line shows.
pub open spec fn scroll_delta(line: int, display_offset: int, screen_lines: int) -> int {
    let top = -display_offset;
    let bottom = top + screen_lines - 1;
    if line < top {
        -(top - line)
    } else if line > bottom {
        line - bottom
    } else {
        0
    }
}

pub fn scroll_delta_to_line(line: i32, display_offset: i32, screen_lines: i32) -> (r: i32)
    requires
        0 <= display_offset,
        0 <= screen_lines,
        -display_offset + screen_lines - 1 >= i32::MIN,
        line - (-display_offset + screen_lines - 1) <= i32::MAX,
        -display_offset - line <= i32::MAX,
    ensures
        r == scroll_delta(line as int, display_offset as int, screen_lines as int),
{
    let top = -display_offset;
    let bottom = top + screen_lines - 1;
    if line < top {
        -(top - line)
    } else if line > bottom {
        line - bottom
    } else {
        0
    }
}

#[verifier::external_type_specification]
#[verifier::external_body]
pub struct ExRegex(Regex);

/// Whether the regex crate compiles `pattern` into an expression (letters
/// matching in any case when `case_insensitive`); a function of the two
/// alone.
pub uninterp spec fn regex_compiles(pattern: Seq<char>, case_insensitive: bool) -> bool;

/// The successive non-overlapping matches, as byte ranges from the left, of
/// the expression compiled from `pattern` (letters in any case when
/// `case_insensitive`) in `haystack`; a function of the three alone.
pub uninterp spec fn regex_matches(pattern: Seq<char>, case_insensitive: bool, haystack: Seq<char>) -> Seq<(usize, usize)>;

/// A compiled search expression, with the pattern and the case option it
/// was compiled from. Only `compile_search_regex` makes one.
pub struct SearchRegex {
    regex: Regex,
    pattern: String,
    case_insensitive: bool,
}

impl View for SearchRegex {
    type V = (Seq<char>, bool);

    /// The pattern and the case option.
    closed spec fn view(&self) -> (Seq<char>, bool) {
        (self.pattern@, self.case_insensitive)
    }
}

/// `RegexBuilder::build` on a builder for `pattern` (`RegexBuilder::new`)
/// whose letters match in any case when `case_insensitive`
/// (`RegexBuilder::case_insensitive`): the expression when the pattern
/// compiles (`regex_compiles`), `None` when the crate refuses it.
#[verifier::external_body]
fn regex_compile(pattern: &str, case_insensitive: bool) -> (r: Option<Regex>)
    ensures
        r is Some <==> regex_compiles(pattern@, case_insensitive),
{
    RegexBuilder::new(pattern).case_insensitive(case_insensitive).build().ok()
}

/// `Regex::find_iter` on the expression of `re`: its successive
/// non-overlapping matches in `haystack` as byte ranges, left to right
/// (`regex_matches` of the pattern and case option `re` was compiled from).
#[verifier::external_body]
fn regex_find_spans(re: &SearchRegex, haystack: &str) -> (r: Vec<(usize, usize)>)
    ensures
        r@ == regex_matches(re@.0, re@.1, haystack@),
        forall|i: int| 0 <= i < r@.len() ==> (#[trigger] r@[i]).0 <= r@[i].1,
        forall|i: int| 0 <= i && i + 1 < r@.len() ==> (#[trigger] r@[i]).1 <= r@[i + 1].0,
{
    re.regex.find_iter(haystack).map(|m| (m.start(), m.end())).collect()
}

/// The pattern searched for: the query, between `\b` word boundaries for
/// whole-word search.
pub open spec fn search_pattern(query: Seq<char>, whole_word: bool) -> Seq<char> {
    if whole_word {
        seq!['\\', 'b'] + query + seq!['\\', 'b']
    } else {
        query
    }
}

pub fn regex_pattern(query: &str, whole_word: bool) -> (r: String)
    ensures
        r@ == search_pattern(query@, whole_word),
{
    let q = chars_of(query);
    if !whole_word {
        return crate::text::string_from_chars(&q);
    }
    let mut out: Vec<char> = Vec::new();
    out.push('\\');
    out.push('b');
    let mut i: usize = 0;
    while i < q.len()
        invariant
            i <= q@.len(),
            out@ == seq!['\\', 'b'] + q@.take(i as int),
        decreases q@.len() - i,
    {
        out.push(q[i]);
        i += 1;
        assert(out@ =~= seq!['\\', 'b'] + q@.take(i as int));
    }
    out.push('\\');
    out.push('b');
    assert(q@.take(q@.len() as int) =~= q@);
    assert(out@ =~= search_pattern(query@, whole_word));
    crate::text::string_from_chars(&out)
}

/// Compiles the search expression for `query`: the pattern of
/// `search_pattern`, letters in any case unless `case_sensitive`; `None`
/// exactly when the regex crate refuses that pattern.
pub fn compile_search_regex(query: &str, case_sensitive: bool, whole_word: bool) -> (r: Option<SearchRegex>)
    ensures
        r is Some <==> regex_compiles(search_pattern(query@, whole_word), !case_sensitive),
        r matches Some(x) ==> x@ == (search_pattern(query@, whole_word), !case_sensitive),
{
    let pattern = regex_pattern(query, whole_word);
    let case_insensitive = !case_sensitive;
    match regex_compile(pattern.as_str(), case_insensitive) {
        Some(regex) => Some(SearchRegex { regex, pattern, case_insensitive }),
        None => None,
    }
}

/// The matches in grid line `line` for the given column spans, in order.
pub fn matches_from_spans(spans: &Vec<(usize, usize)>, line: i32) -> (r: Vec<GlobalSearchMatch>)
    ensures
        r@.len() == spans@.len(),
        forall|i: int| 0 <= i < r@.len() ==> #[trigger] r@[i] == (GlobalSearchMatch {
            grid_line: line,
            start_col: spans@[i].0,
            end_col: spans@[i].1,
        }),
{
    let mut out: Vec<GlobalSearchMatch> = Vec::new();
    let mut i: usize = 0;
    while i < spans.len()
        invariant
            i <= spans@.len(),
            out@.len() == i,
            forall|k: int| 0 <= k < i ==> #[trigger] out@[k] == (GlobalSearchMatch {
                grid_line: line,
                start_col: spans@[k].0,
                end_col: spans@[k].1,
            }),
        decreases spans@.len() - i,
    {
        let (start, end) = spans[i];
        out.push(GlobalSearchMatch { grid_line: line, start_col: start, end_col: end });
        i += 1;
    }
    out
}

/// The regex matches in grid line `line`, whose cells hold `row`: each
/// match of `re` in the row's text (`regex_matches`), its byte range taken
/// as its columns, in order; they do not overlap.
pub fn regex_line_matches(re: &SearchRegex, row: &[char], line: i32) -> (r: Vec<GlobalSearchMatch>)
    ensures
        r@.len() == regex_matches(re@.0, re@.1, row@).len(),
        forall|i: int| 0 <= i < r@.len() ==> #[trigger] r@[i] == (GlobalSearchMatch {
            grid_line: line,
            start_col: regex_matches(re@.0, re@.1, row@)[i].0,
            end_col: regex_matches(re@.0, re@.1, row@)[i].1,
        }),
        forall|i: int| 0 <= i < r@.len() ==> (#[trigger] r@[i]).grid_line == line && r@[i].start_col <= r@[i].end_col,
        forall|i: int| 0 <= i && i + 1 < r@.len() ==> (#[trigger] r@[i]).end_col <= r@[i + 1].start_col,
{
    let text = crate::text::string_from_chars(row);
    let spans = regex_find_spans(re, text.as_str());
    let r = matches_from_spans(&spans, line);
    assert forall|i: int| 0 <= i && i + 1 < r@.len() implies (#[trigger] r@[i]).end_col <= r@[i + 1].start_col by {
        assert(r@[i + 1].start_col == spans@[i + 1].0);
    }
    r
}

/// The literal matches in grid line `line` (see `row_search`).
pub fn literal_line_matches(row: &[char], query: &str, case_sensitive: bool, whole_word: bool, line: i32) -> (r: Vec<GlobalSearchMatch>)
    ensures
        r@.len() == row_search(row@, query@, case_sensitive, whole_word).len(),
        forall|i: int| 0 <= i < r@.len() ==> #[trigger] r@[i] == (GlobalSearchMatch {
            grid_line: line,
            start_col: row_search(row@, query@, case_sensitive, whole_word)[i].0,
            end_col: row_search(row@, query@, case_sensitive, whole_word)[i].1,
        }),
{
    let found = search_row(row, query, case_sensitive, whole_word);
    let mut out: Vec<GlobalSearchMatch> = Vec::new();
    let mut i: usize = 0;
    while i < found.len()
        invariant
            i <= found@.len(),
            out@.len() == i,
            forall|k: int| 0 <= k < i ==> #[trigger] out@[k] == (GlobalSearchMatch {
                grid_line: line,
                start_col: found@[k].0,
                end_col: found@[k].1,
            }),
        decreases found@.len() - i,
    {
        let (start, end) = found[i];
        out.push(GlobalSearchMatch { grid_line: line, start_col: start, end_col: end });
        i += 1;
    }
    out
}

} // verus!

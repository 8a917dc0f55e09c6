//! The keyboard side of a window's overlays: the tab-rename field, the
//! scrollback search bar and the command palette, each a small state that a
//! key press edits, and the order in which a key press is offered to them.

use vstd::prelude::*;

use crate::keys::{ElementState, Key, KeyEvent, ModifiersState, NamedKey};
use crate::menu::MenuAction;
use crate::tabs::TabId;
use crate::text::{chars_of, string_from_chars, trim_chars, trimmed};
use crate::window_state::{
    lemma_selection_up_undoes_down, palette_select_next, palette_select_previous, selection_down,
    selection_up, PaletteItem, PaletteItemView,
};

verus! {

/// A key press that an overlay reads: pressed, and not an auto-repeat.
pub open spec fn is_fresh_press(e: KeyEvent) -> bool {
    !e.repeat && e.state == ElementState::Pressed
}

/// `s` without its last character (`String::pop`); empty text stays empty.
pub open spec fn without_last(s: Seq<char>) -> Seq<char> {
    if s.len() == 0 {
        s
    } else {
        s.drop_last()
    }
}

/// Text typed into an overlay: a character key with neither Ctrl nor Alt held.
pub open spec fn typed_text(e: KeyEvent, m: ModifiersState) -> Option<Seq<char>> {
    match e.logical_key {
        Key::Character(t) => if !m.control && !m.alt {
            Some(t@)
        } else {
            None
        },
        _ => None,
    }
}

fn chars_without_last(s: &String) -> (r: String)
    ensures
        r@ == without_last(s@),
{
    let c = chars_of(s.as_str());
    if c.len() == 0 {
        return string_from_chars(&c);
    }
    let mut out: Vec<char> = Vec::new();
    let n = c.len() - 1;
    let mut i: usize = 0;
    while i < n
        invariant
            c@ == s@,
            n + 1 == c@.len(),
            i <= n,
            out@ == c@.take(i as int),
        decreases c@.len() - i,
    {
        out.push(c[i]);
        i += 1;
        assert(out@ =~= c@.take(i as int));
    }
    assert(c@.take(i as int) =~= c@.drop_last());
    string_from_chars(&out)
}

fn chars_appended(s: &String, t: &String) -> (r: String)
    ensures
        r@ == s@ + t@,
{
    let mut out = chars_of(s.as_str());
    let tail = chars_of(t.as_str());
    let mut i: usize = 0;
    while i < tail.len()
        invariant
            i <= tail@.len(),
            tail@ == t@,
            out@ == s@ + tail@.take(i as int),
        decreases tail@.len() - i,
    {
        out.push(tail[i]);
        i += 1;
        assert(out@ =~= s@ + tail@.take(i as int));
    }
    assert(tail@.take(tail@.len() as int) =~= tail@);
    string_from_chars(&out)
}

fn is_fresh_press_exec(e: &KeyEvent) -> (r: bool)
    ensures
        r == is_fresh_press(*e),
{
    !e.repeat && e.state == ElementState::Pressed
}

fn is_named(e: &KeyEvent, k: NamedKey) -> (r: bool)
    ensures
        r == (e.logical_key == Key::Named(k)),
{
    match &e.logical_key {
        Key::Named(n) => *n == k,
        _ => false,
    }
}

// ---------------------------------------------------------------------------
// Tab rename
// ---------------------------------------------------------------------------

/// The tab-rename field: whether it is open, and the title typed so far.
#[derive(Debug, Default)]
pub struct RenameState {
    pub active: bool,
    pub draft: String,
}

pub struct RenameView {
    pub active: bool,
    pub draft: Seq<char>,
}

impl View for RenameState {
    type V = RenameView;

    open spec fn view(&self) -> RenameView {
        RenameView { active: self.active, draft: self.draft@ }
    }
}

/// What the rename field made of a key press.
#[derive(Debug, PartialEq, Eq)]
pub enum RenameOutcome {
    /// The field is closed, or the key was no fresh press: the key goes on.
    NotHandled,
    /// The field took the key.
    Handled,
    /// Enter on a title that is not blank: the active tab takes this title.
    Commit(String),
}

pub enum RenameOutcomeView {
    NotHandled,
    Handled,
    Commit(Seq<char>),
}

impl View for RenameOutcome {
    type V = RenameOutcomeView;

    open spec fn view(&self) -> RenameOutcomeView {
        match self {
            RenameOutcome::NotHandled => RenameOutcomeView::NotHandled,
            RenameOutcome::Handled => RenameOutcomeView::Handled,
            RenameOutcome::Commit(t) => RenameOutcomeView::Commit(t@),
        }
    }
}

/// The rename field after a key press, and what it asks for: Escape closes,
/// Backspace drops the last character, Enter closes and commits the trimmed
/// draft when it is not blank, typed text is appended; any other key is
/// taken and changes nothing.
pub open spec fn rename_step(s: RenameView, e: KeyEvent, m: ModifiersState) -> (RenameView, RenameOutcomeView) {
    if !is_fresh_press(e) || !s.active {
        (s, RenameOutcomeView::NotHandled)
    } else if e.logical_key == Key::Named(NamedKey::Escape) {
        (RenameView { active: false, ..s }, RenameOutcomeView::Handled)
    } else if e.logical_key == Key::Named(NamedKey::Backspace) {
        (RenameView { draft: without_last(s.draft), ..s }, RenameOutcomeView::Handled)
    } else if e.logical_key == Key::Named(NamedKey::Enter) {
        let t = trimmed(s.draft);
        (RenameView { active: false, ..s }, if t.len() == 0 {
            RenameOutcomeView::Handled
        } else {
            RenameOutcomeView::Commit(t)
        })
    } else {
        match typed_text(e, m) {
            Some(t) => (RenameView { draft: s.draft + t, ..s }, RenameOutcomeView::Handled),
            None => (s, RenameOutcomeView::Handled),
        }
    }
}

impl RenameState {
    /// Opens the field on the active tab's title.
    pub fn start(&mut self, title: &String)
        ensures
            final(self).active,
            final(self).draft@ == title@,
    {
        self.draft = title.clone();
        self.active = true;
    }

    /// Applies a key press (see `rename_step`).
    pub fn handle_key(&mut self, event: &KeyEvent, modifiers: ModifiersState) -> (r: RenameOutcome)
        ensures
            (final(self)@, r@) == rename_step(old(self)@, *event, modifiers),
    {
        if !is_fresh_press_exec(event) || !self.active {
            return RenameOutcome::NotHandled;
        }
        if is_named(event, NamedKey::Escape) {
            self.active = false;
            return RenameOutcome::Handled;
        }
        if is_named(event, NamedKey::Backspace) {
            self.draft = chars_without_last(&self.draft);
            return RenameOutcome::Handled;
        }
        if is_named(event, NamedKey::Enter) {
            self.active = false;
            let t = trim_chars(chars_of(self.draft.as_str()).as_slice());
            if t.len() == 0 {
                return RenameOutcome::Handled;
            }
            return RenameOutcome::Commit(string_from_chars(&t));
        }
        match &event.logical_key {
            Key::Character(text) => {
                if !modifiers.control && !modifiers.alt {
                    self.draft = chars_appended(&self.draft, text);
                }
            },
            _ => {},
        }
        RenameOutcome::Handled
    }
}

// ---------------------------------------------------------------------------
// Scrollback search
// ---------------------------------------------------------------------------

/// The search bar: whether it is open, the query, how many matches the query
/// has and which of them is current, and the three search options.
#[derive(Debug, Default)]
pub struct SearchState {
    pub active: bool,
    pub query: String,
    pub match_count: usize,
    pub current_match: usize,
    pub case_sensitive: bool,
    pub use_regex: bool,
    pub whole_word: bool,
}

pub struct SearchView {
    pub active: bool,
    pub query: Seq<char>,
    pub match_count: nat,
    pub current_match: nat,
    pub case_sensitive: bool,
    pub use_regex: bool,
    pub whole_word: bool,
}

impl View for SearchState {
    type V = SearchView;

    open spec fn view(&self) -> SearchView {
        SearchView {
            active: self.active,
            query: self.query@,
            match_count: self.match_count as nat,
            current_match: self.current_match as nat,
            case_sensitive: self.case_sensitive,
            use_regex: self.use_regex,
            whole_word: self.whole_word,
        }
    }
}

/// What the search bar made of a key press.
#[derive(Clone, Copy, Debug, PartialEq, Eq, Structural)]
pub enum SearchOutcome {
    /// The bar is closed, or the key was no fresh press: the key goes on.
    NotHandled,
    /// The bar took the key; nothing else changes.
    Handled,
    /// The bar closed: the screen is drawn again without its highlights.
    Closed,
    /// The query or an option changed: the matches are found again.
    Refresh,
    /// Another match became current: the view scrolls to it.
    Jump,
}

/// Whether `t` is the letter `lower` in either case.
pub open spec fn is_letter(t: Seq<char>, lower: char, upper: char) -> bool {
    t == seq![lower] || t == seq![upper]
}

/// The search bar after a key press, and what it asks for. Escape closes;
/// Backspace drops the last character of the query; Enter moves to the next
/// match (the previous one with Shift), wrapping around, when there are any;
/// Ctrl+Shift+C or Alt+C toggles case sensitivity, Alt+R regular
/// expressions and Alt+W whole words; typed text is appended to the query.
/// Editing the query makes the first match current.
pub open spec fn search_step(s: SearchView, e: KeyEvent, m: ModifiersState) -> (SearchView, SearchOutcome) {
    if !is_fresh_press(e) || !s.active {
        (s, SearchOutcome::NotHandled)
    } else if e.logical_key == Key::Named(NamedKey::Escape) {
        (SearchView { active: false, current_match: 0, ..s }, SearchOutcome::Closed)
    } else if e.logical_key == Key::Named(NamedKey::Backspace) {
        (SearchView { query: without_last(s.query), current_match: 0, ..s }, SearchOutcome::Refresh)
    } else if e.logical_key == Key::Named(NamedKey::Enter) {
        if s.match_count > 0 {
            let next = if m.shift {
                selection_up(s.current_match as int, s.match_count as int)
            } else {
                selection_down(s.current_match as int, s.match_count as int)
            };
            (SearchView { current_match: next as nat, ..s }, SearchOutcome::Jump)
        } else {
            (s, SearchOutcome::Handled)
        }
    } else {
        match e.logical_key {
            Key::Character(t) => if is_letter(t@, 'c', 'C') && ((m.control && m.shift) || (m.alt
                && !m.control)) {
                (SearchView { case_sensitive: !s.case_sensitive, ..s }, SearchOutcome::Refresh)
            } else if is_letter(t@, 'r', 'R') && m.alt && !m.control {
                (SearchView { use_regex: !s.use_regex, ..s }, SearchOutcome::Refresh)
            } else if is_letter(t@, 'w', 'W') && m.alt && !m.control {
                (SearchView { whole_word: !s.whole_word, ..s }, SearchOutcome::Refresh)
            } else if !m.control && !m.alt {
                (SearchView { query: s.query + t@, current_match: 0, ..s }, SearchOutcome::Refresh)
            } else {
                (s, SearchOutcome::Handled)
            },
            _ => (s, SearchOutcome::Handled),
        }
    }
}

fn text_is_letter(t: &String, lower: char, upper: char) -> (r: bool)
    ensures
        r == is_letter(t@, lower, upper),
{
    let c = chars_of(t.as_str());
    if c.len() != 1 {
        return false;
    }
    assert(c@ =~= seq![c@[0]]);
    c[0] == lower || c[0] == upper
}

impl SearchState {
    /// Opens the bar on its first match.
    pub fn open(&mut self)
        ensures
            final(self)@ == (SearchView { active: true, current_match: 0, ..old(self)@ }),
    {
        self.active = true;
        self.current_match = 0;
    }

    /// Closes the bar; `false` when it was not open.
    pub fn close(&mut self) -> (r: bool)
        ensures
            r == old(self).active,
            final(self)@ == (if r {
                SearchView { active: false, current_match: 0, ..old(self)@ }
            } else {
                old(self)@
            }),
    {
        if !self.active {
            return false;
        }
        self.active = false;
        self.current_match = 0;
        true
    }

    /// Takes the number of matches that the query now has.
    pub fn set_match_count(&mut self, count: usize)
        ensures
            final(self)@ == (SearchView { match_count: count as nat, ..old(self)@ }),
    {
        self.match_count = count;
    }

    /// Takes the number of matches a frame found: the current match goes back
    /// to the first when there are none or it lies past the last.
    pub fn settle_match_count(&mut self, count: usize)
        ensures
            final(self)@ == (SearchView {
                match_count: count as nat,
                current_match: if count == 0 || old(self).current_match >= count {
                    0
                } else {
                    old(self).current_match as nat
                },
                ..old(self)@
            }),
    {
        self.match_count = count;
        if count == 0 || self.current_match >= count {
            self.current_match = 0;
        }
    }

    /// Applies a key press (see `search_step`).
    pub fn handle_key(&mut self, event: &KeyEvent, modifiers: ModifiersState) -> (r: SearchOutcome)
        ensures
            (final(self)@, r) == search_step(old(self)@, *event, modifiers),
    {
        if !is_fresh_press_exec(event) || !self.active {
            return SearchOutcome::NotHandled;
        }
        if is_named(event, NamedKey::Escape) {
            self.active = false;
            self.current_match = 0;
            return SearchOutcome::Closed;
        }
        if is_named(event, NamedKey::Backspace) {
            self.query = chars_without_last(&self.query);
            self.current_match = 0;
            return SearchOutcome::Refresh;
        }
        if is_named(event, NamedKey::Enter) {
            if self.match_count > 0 {
                self.current_match = if modifiers.shift {
                    palette_select_previous(self.current_match, self.match_count)
                } else {
                    palette_select_next(self.current_match, self.match_count)
                };
                return SearchOutcome::Jump;
            }
            return SearchOutcome::Handled;
        }
        match &event.logical_key {
            Key::Character(text) => {
                let ctrl = modifiers.control;
                let alt = modifiers.alt;
                if text_is_letter(text, 'c', 'C') && ((ctrl && modifiers.shift) || (alt && !ctrl)) {
                    self.case_sensitive = !self.case_sensitive;
                    SearchOutcome::Refresh
                } else if text_is_letter(text, 'r', 'R') && alt && !ctrl {
                    self.use_regex = !self.use_regex;
                    SearchOutcome::Refresh
                } else if text_is_letter(text, 'w', 'W') && alt && !ctrl {
                    self.whole_word = !self.whole_word;
                    SearchOutcome::Refresh
                } else if !ctrl && !alt {
                    self.query = chars_appended(&self.query, text);
                    self.current_match = 0;
                    SearchOutcome::Refresh
                } else {
                    SearchOutcome::Handled
                }
            },
            _ => SearchOutcome::Handled,
        }
    }
}

// ---------------------------------------------------------------------------
// Command palette
// ---------------------------------------------------------------------------

/// The command palette: whether it is open, the query, and the selected entry.
#[derive(Debug, Default)]
pub struct PaletteState {
    pub active: bool,
    pub query: String,
    pub selected_index: usize,
}

pub struct PaletteView {
    pub active: bool,
    pub query: Seq<char>,
    pub selected_index: nat,
}

impl View for PaletteState {
    type V = PaletteView;

    open spec fn view(&self) -> PaletteView {
        PaletteView { active: self.active, query: self.query@, selected_index: self.selected_index as nat }
    }
}

/// What the palette made of a key press.
#[derive(Debug, PartialEq, Eq)]
pub enum PaletteOutcome {
    /// The palette is closed, or the key was no fresh press: the key goes on.
    NotHandled,
    /// The palette took the key.
    Handled,
    /// A command was chosen: the palette closed and the menu action runs.
    Run(MenuAction),
    /// A tab was chosen: the palette closed and the tab takes the focus.
    FocusTab(TabId),
    /// A profile was chosen: the palette closed and the profile is loaded.
    SwitchProfile(String),
}

pub enum PaletteOutcomeView {
    NotHandled,
    Handled,
    Run(MenuAction),
    FocusTab(TabId),
    SwitchProfile(Seq<char>),
}

impl View for PaletteOutcome {
    type V = PaletteOutcomeView;

    open spec fn view(&self) -> PaletteOutcomeView {
        match self {
            PaletteOutcome::NotHandled => PaletteOutcomeView::NotHandled,
            PaletteOutcome::Handled => PaletteOutcomeView::Handled,
            PaletteOutcome::Run(a) => PaletteOutcomeView::Run(*a),
            PaletteOutcome::FocusTab(id) => PaletteOutcomeView::FocusTab(*id),
            PaletteOutcome::SwitchProfile(n) => PaletteOutcomeView::SwitchProfile(n@),
        }
    }
}

/// What choosing `item` asks for.
pub open spec fn chosen(item: PaletteItemView) -> PaletteOutcomeView {
    match item {
        PaletteItemView::Command(_, action) => PaletteOutcomeView::Run(action),
        PaletteItemView::Tab(id, _) => PaletteOutcomeView::FocusTab(id),
        PaletteItemView::Profile(name) => PaletteOutcomeView::SwitchProfile(name),
    }
}

/// The palette after a key press, `items` being the entries that its query
/// shows, and what it asks for. Escape closes; Backspace drops the last
/// character of the query; the arrows move the selection, wrapping around;
/// Enter closes the palette on the selected entry and chooses it (nothing
/// happens when no entry is selected); typed text is appended to the query.
/// Editing the query selects the first entry.
pub open spec fn palette_step(
    s: PaletteView,
    e: KeyEvent,
    m: ModifiersState,
    items: Seq<PaletteItemView>,
) -> (PaletteView, PaletteOutcomeView) {
    if !is_fresh_press(e) || !s.active {
        (s, PaletteOutcomeView::NotHandled)
    } else if e.logical_key == Key::Named(NamedKey::Escape) {
        (PaletteView { active: false, ..s }, PaletteOutcomeView::Handled)
    } else if e.logical_key == Key::Named(NamedKey::Backspace) {
        (PaletteView { query: without_last(s.query), selected_index: 0, ..s }, PaletteOutcomeView::Handled)
    } else if e.logical_key == Key::Named(NamedKey::ArrowUp) {
        let up = selection_up(s.selected_index as int, items.len() as int);
        (PaletteView { selected_index: up as nat, ..s }, PaletteOutcomeView::Handled)
    } else if e.logical_key == Key::Named(NamedKey::ArrowDown) {
        let down = selection_down(s.selected_index as int, items.len() as int);
        (PaletteView { selected_index: down as nat, ..s }, PaletteOutcomeView::Handled)
    } else if e.logical_key == Key::Named(NamedKey::Enter) {
        if s.selected_index < items.len() {
            (PaletteView { active: false, ..s }, chosen(items[s.selected_index as int]))
        } else {
            (s, PaletteOutcomeView::Handled)
        }
    } else {
        match typed_text(e, m) {
            Some(t) => (PaletteView { query: s.query + t, selected_index: 0, ..s }, PaletteOutcomeView::Handled),
            None => (s, PaletteOutcomeView::Handled),
        }
    }
}

impl PaletteState {
    /// Opens the palette with an empty query on its first entry.
    pub fn open(&mut self)
        ensures
            final(self)@ == (PaletteView { active: true, query: Seq::empty(), selected_index: 0 }),
    {
        self.active = true;
        self.query = String::new();
        self.selected_index = 0;
    }

    /// Applies a key press (see `palette_step`).
    pub fn handle_key(
        &mut self,
        event: &KeyEvent,
        modifiers: ModifiersState,
        items: &Vec<PaletteItem>,
    ) -> (r: PaletteOutcome)
        ensures
            (final(self)@, r@) == palette_step(
                old(self)@,
                *event,
                modifiers,
                items@.map_values(|i: PaletteItem| i@),
            ),
    {
        let ghost iv = items@.map_values(|i: PaletteItem| i@);
        if !is_fresh_press_exec(event) || !self.active {
            return PaletteOutcome::NotHandled;
        }
        if is_named(event, NamedKey::Escape) {
            self.active = false;
            return PaletteOutcome::Handled;
        }
        if is_named(event, NamedKey::Backspace) {
            self.query = chars_without_last(&self.query);
            self.selected_index = 0;
            return PaletteOutcome::Handled;
        }
        if is_named(event, NamedKey::ArrowUp) {
            self.selected_index = palette_select_previous(self.selected_index, items.len());
            return PaletteOutcome::Handled;
        }
        if is_named(event, NamedKey::ArrowDown) {
            self.selected_index = palette_select_next(self.selected_index, items.len());
            return PaletteOutcome::Handled;
        }
        if is_named(event, NamedKey::Enter) {
            if self.selected_index < items.len() {
                self.active = false;
                return match &items[self.selected_index] {
                    PaletteItem::Command { action, .. } => PaletteOutcome::Run(*action),
                    PaletteItem::Tab { id, .. } => PaletteOutcome::FocusTab(*id),
                    PaletteItem::Profile { name } => PaletteOutcome::SwitchProfile(name.clone()),
                };
            }
            return PaletteOutcome::Handled;
        }
        match &event.logical_key {
            Key::Character(text) => {
                if !modifiers.control && !modifiers.alt {
                    self.query = chars_appended(&self.query, text);
                    self.selected_index = 0;
                }
            },
            _ => {},
        }
        PaletteOutcome::Handled
    }
}

// ---------------------------------------------------------------------------
// A window's overlays together
// ---------------------------------------------------------------------------

/// A window's overlays and whether its menu is open.
#[derive(Debug, Default)]
pub struct Overlays {
    pub rename: RenameState,
    pub search: SearchState,
    pub palette: PaletteState,
    pub menu_open: bool,
}

pub struct OverlaysView {
    pub rename: RenameView,
    pub search: SearchView,
    pub palette: PaletteView,
    pub menu_open: bool,
}

impl View for Overlays {
    type V = OverlaysView;

    open spec fn view(&self) -> OverlaysView {
        OverlaysView {
            rename: self.rename@,
            search: self.search@,
            palette: self.palette@,
            menu_open: self.menu_open,
        }
    }
}

/// Where a key press went.
#[derive(Debug, PartialEq, Eq)]
pub enum KeyRoute {
    Rename(RenameOutcome),
    Palette(PaletteOutcome),
    Search(SearchOutcome),
    /// Escape while the menu is open: the menu closed.
    DismissMenu,
    /// No overlay took the key: it goes to the key bindings and the terminal.
    Bindings,
}

pub enum KeyRouteView {
    Rename(RenameOutcomeView),
    Palette(PaletteOutcomeView),
    Search(SearchOutcome),
    DismissMenu,
    Bindings,
}

impl View for KeyRoute {
    type V = KeyRouteView;

    open spec fn view(&self) -> KeyRouteView {
        match self {
            KeyRoute::Rename(o) => KeyRouteView::Rename(o@),
            KeyRoute::Palette(o) => KeyRouteView::Palette(o@),
            KeyRoute::Search(o) => KeyRouteView::Search(*o),
            KeyRoute::DismissMenu => KeyRouteView::DismissMenu,
            KeyRoute::Bindings => KeyRouteView::Bindings,
        }
    }
}

/// A key press is offered to the rename field, then to the palette, then to
/// the search bar; the first that takes it keeps it. Escape pressed while
/// the menu is open closes the menu. Any other key goes on to the bindings.
pub open spec fn route_key(
    o: OverlaysView,
    e: KeyEvent,
    m: ModifiersState,
    items: Seq<PaletteItemView>,
) -> (OverlaysView, KeyRouteView) {
    let (r1, ro) = rename_step(o.rename, e, m);
    let (p1, po) = palette_step(o.palette, e, m, items);
    let (s1, so) = search_step(o.search, e, m);
    if !(ro is NotHandled) {
        (OverlaysView { rename: r1, ..o }, KeyRouteView::Rename(ro))
    } else if !(po is NotHandled) {
        (OverlaysView { palette: p1, ..o }, KeyRouteView::Palette(po))
    } else if so != SearchOutcome::NotHandled {
        (OverlaysView { search: s1, ..o }, KeyRouteView::Search(so))
    } else if o.menu_open && e.state == ElementState::Pressed && e.logical_key == Key::Named(
        NamedKey::Escape,
    ) {
        (OverlaysView { menu_open: false, ..o }, KeyRouteView::DismissMenu)
    } else {
        (o, KeyRouteView::Bindings)
    }
}

impl Overlays {
    /// Opens the rename field on `title`; the search bar, the palette and the
    /// menu close.
    pub fn start_rename(&mut self, title: &String)
        ensures
            final(self)@ == (OverlaysView {
                rename: RenameView { active: true, draft: title@ },
                search: SearchView { active: false, ..old(self)@.search },
                palette: PaletteView { active: false, ..old(self)@.palette },
                menu_open: false,
            }),
    {
        self.rename.start(title);
        self.search.active = false;
        self.palette.active = false;
        self.menu_open = false;
    }

    /// Opens the search bar on its first match; the palette and the menu close.
    pub fn open_search(&mut self)
        ensures
            final(self)@ == (OverlaysView {
                search: SearchView { active: true, current_match: 0, ..old(self)@.search },
                palette: PaletteView { active: false, ..old(self)@.palette },
                menu_open: false,
                ..old(self)@
            }),
    {
        self.search.open();
        self.palette.active = false;
        self.menu_open = false;
    }

    /// Opens the palette with an empty query; the search bar and the menu close.
    pub fn open_palette(&mut self)
        ensures
            final(self)@ == (OverlaysView {
                palette: PaletteView { active: true, query: Seq::empty(), selected_index: 0 },
                search: SearchView { active: false, ..old(self)@.search },
                menu_open: false,
                ..old(self)@
            }),
    {
        self.palette.open();
        self.search.active = false;
        self.menu_open = false;
    }

    /// Routes a key press (see `route_key`); `items` are the entries that the
    /// palette's query shows.
    pub fn handle_key(&mut self, event: &KeyEvent, modifiers: ModifiersState, items: &Vec<PaletteItem>) -> (r: KeyRoute)
        ensures
            (final(self)@, r@) == route_key(old(self)@, *event, modifiers, items@.map_values(|i: PaletteItem| i@)),
    {
        match self.rename.handle_key(event, modifiers) {
            RenameOutcome::NotHandled => {},
            taken => return KeyRoute::Rename(taken),
        }
        match self.palette.handle_key(event, modifiers, items) {
            PaletteOutcome::NotHandled => {},
            taken => return KeyRoute::Palette(taken),
        }
        let search = self.search.handle_key(event, modifiers);
        if search != SearchOutcome::NotHandled {
            return KeyRoute::Search(search);
        }
        if self.menu_open && event.state == ElementState::Pressed && is_named(event, NamedKey::Escape) {
            self.menu_open = false;
            return KeyRoute::DismissMenu;
        }
        KeyRoute::Bindings
    }
}

// ---------------------------------------------------------------------------
// Laws
// ---------------------------------------------------------------------------

/// One character typed into the rename field and then Backspace leave the
/// field as it was.
pub proof fn lemma_rename_backspace_undoes_typing(
    s: RenameView,
    typed: KeyEvent,
    m1: ModifiersState,
    back: KeyEvent,
    m2: ModifiersState,
)
    requires
        s.active,
        is_fresh_press(typed),
        typed_text(typed, m1) matches Some(t) && t.len() == 1,
        is_fresh_press(back),
        back.logical_key == Key::Named(NamedKey::Backspace),
    ensures
        rename_step(rename_step(s, typed, m1).0, back, m2).0 == s,
{
    let t = typed_text(typed, m1)->0;
    assert((s.draft + t).drop_last() =~= s.draft);
}

/// One character typed into the search bar and then Backspace give back the
/// query, on its first match.
pub proof fn lemma_search_backspace_undoes_typing(
    s: SearchView,
    typed: KeyEvent,
    m1: ModifiersState,
    back: KeyEvent,
    m2: ModifiersState,
)
    requires
        s.active,
        is_fresh_press(typed),
        typed_text(typed, m1) matches Some(t) && t.len() == 1,
        is_fresh_press(back),
        back.logical_key == Key::Named(NamedKey::Backspace),
    ensures
        search_step(search_step(s, typed, m1).0, back, m2).0 == (SearchView { current_match: 0, ..s }),
{
    let t = typed_text(typed, m1)->0;
    assert((s.query + t).drop_last() =~= s.query);
}

/// One character typed into the palette and then Backspace give back the
/// query, on its first entry.
pub proof fn lemma_palette_backspace_undoes_typing(
    s: PaletteView,
    typed: KeyEvent,
    m1: ModifiersState,
    back: KeyEvent,
    m2: ModifiersState,
    items: Seq<PaletteItemView>,
)
    requires
        s.active,
        is_fresh_press(typed),
        typed_text(typed, m1) matches Some(t) && t.len() == 1,
        is_fresh_press(back),
        back.logical_key == Key::Named(NamedKey::Backspace),
    ensures
        palette_step(palette_step(s, typed, m1, items).0, back, m2, items).0 == (PaletteView {
            selected_index: 0,
            ..s
        }),
{
    let t = typed_text(typed, m1)->0;
    assert((s.query + t).drop_last() =~= s.query);
}

/// Enter and then Shift+Enter in the search bar (or the other way round)
/// come back to the same match.
pub proof fn lemma_search_next_then_previous(
    s: SearchView,
    e1: KeyEvent,
    m1: ModifiersState,
    e2: KeyEvent,
    m2: ModifiersState,
)
    requires
        s.active,
        s.current_match < s.match_count,
        is_fresh_press(e1),
        is_fresh_press(e2),
        e1.logical_key == Key::Named(NamedKey::Enter),
        e2.logical_key == Key::Named(NamedKey::Enter),
        m1.shift != m2.shift,
    ensures
        search_step(search_step(s, e1, m1).0, e2, m2).0 == s,
{
    lemma_selection_up_undoes_down(s.current_match as int, s.match_count as int);
}

/// Down and then Up in the palette (or the other way round) come back to the
/// same entry.
pub proof fn lemma_palette_down_then_up(
    s: PaletteView,
    e1: KeyEvent,
    e2: KeyEvent,
    m: ModifiersState,
    items: Seq<PaletteItemView>,
)
    requires
        s.active,
        s.selected_index < items.len(),
        is_fresh_press(e1),
        is_fresh_press(e2),
        (e1.logical_key == Key::Named(NamedKey::ArrowDown) && e2.logical_key == Key::Named(NamedKey::ArrowUp))
            || (e1.logical_key == Key::Named(NamedKey::ArrowUp) && e2.logical_key == Key::Named(
            NamedKey::ArrowDown,
        )),
    ensures
        palette_step(palette_step(s, e1, m, items).0, e2, m, items).0 == s,
{
    lemma_selection_up_undoes_down(s.selected_index as int, items.len() as int);
}

/// An option key (case, regular expression or whole word) pressed twice in
/// the search bar leaves it as it was.
pub proof fn lemma_search_option_toggles_back(s: SearchView, e: KeyEvent, m: ModifiersState)
    requires
        s.active,
        is_fresh_press(e),
        e.logical_key matches Key::Character(t) && (
        (is_letter(t@, 'c', 'C') && ((m.control && m.shift) || (m.alt && !m.control)))
            || (is_letter(t@, 'r', 'R') && m.alt && !m.control)
            || (is_letter(t@, 'w', 'W') && m.alt && !m.control)),
    ensures
        search_step(search_step(s, e, m).0, e, m).0 == s,
        search_step(s, e, m).1 == SearchOutcome::Refresh,
{
}

/// While the rename field is open it takes every fresh key press, and the
/// other overlays and the bindings see none.
pub proof fn lemma_open_rename_takes_keys(
    o: OverlaysView,
    e: KeyEvent,
    m: ModifiersState,
    items: Seq<PaletteItemView>,
)
    requires
        o.rename.active,
        is_fresh_press(e),
    ensures
        route_key(o, e, m, items).1 is Rename,
        route_key(o, e, m, items).0.search == o.search,
        route_key(o, e, m, items).0.palette == o.palette,
        route_key(o, e, m, items).0.menu_open == o.menu_open,
{
}

} // verus!

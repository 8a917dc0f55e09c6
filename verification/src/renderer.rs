//! What the renderer is handed to draw the overlays, and what a click on
//! the search overlay hit.

use vstd::prelude::*;

verus! {

/// The search overlay as drawn: the query and the match counter.
#[derive(Clone, Copy)]
pub struct SearchOverlayFrame<'a> {
    pub query: &'a str,
    pub match_count: usize,
    pub current_match: usize,
    pub case_sensitive: bool,
    pub use_regex: bool,
    pub whole_word: bool,
    pub regex_error: bool,
}

/// The tab rename overlay as drawn.
#[derive(Clone, Copy)]
pub struct RenameOverlayFrame<'a> {
    pub draft: &'a str,
}

/// The command palette as drawn: the query, the entry labels and the
/// selected entry.
#[derive(Clone, Copy)]
pub struct CommandPaletteFrame<'a> {
    pub query: &'a str,
    pub entries: &'a [String],
    pub selected_index: usize,
}

/// Where a click on the search overlay landed.
#[derive(Clone, Copy, Debug, PartialEq, Eq, Structural)]
pub enum SearchOverlayHit {
    /// The close button was clicked.
    Close,
    /// A click landed inside the panel but not on the close button.
    Inside,
}

/// What a click in the title bar hit.
#[derive(Clone, Copy, Debug, PartialEq, Eq, Structural)]
pub enum TitleBarHit {
    Drag,
    Hamburger,
    Minimize,
    Maximize,
    Close,
    NoHit,
}

/// What a click in the tab strip hit.
#[derive(Clone, Copy, Debug, PartialEq, Eq, Structural)]
pub enum TabStripHit {
    Tab(crate::tabs::TabId),
    Close(crate::tabs::TabId),
    Detach(crate::tabs::TabId),
    NewTab,
    ToggleCollapse,
    NoHit,
}

} // verus!

//! Actions of the window menu.

use vstd::prelude::*;

use crate::config::ThemeMode;
use crate::window_state::ViewMode;

verus! {

/// An entry of the window menu (and of the command palette).
#[derive(Clone, Copy, Debug, PartialEq, Eq, Structural)]
pub enum MenuAction {
    NewTab,
    DuplicateTab,
    CloseTab,
    DetachTab,
    RenameTab,
    Copy,
    Paste,
    ClearScrollback,
    ThemeLight,
    ThemeDark,
    ThemeAuto,
    ViewSingle,
    ViewGrid,
    TogglePerfOverlay,
    ToggleFullscreen,
    ToggleFollowOutput,
    ZoomIn,
    ZoomOut,
    ZoomReset,
    ToggleTabPin,
    CycleTabColor,
    ToggleAlwaysOnTop,
    Quit,
}

/// A row of the window menu.
#[derive(Clone, Debug)]
pub enum MenuEntry {
    Action { action: MenuAction, label: String },
    /// The single / grid view choice, showing the current one.
    ViewSelector { current: ViewMode },
    /// The light / dark / auto theme choice, showing the current one.
    ThemeSelector { current: ThemeMode },
    /// The terminal opacity slider, at this percentage.
    OpacitySlider { percent: u32 },
    Separator,
}

pub enum MenuEntryView {
    Action(MenuAction, Seq<char>),
    ViewSelector(ViewMode),
    ThemeSelector(ThemeMode),
    OpacitySlider(u32),
    Separator,
}

impl View for MenuEntry {
    type V = MenuEntryView;

    open spec fn view(&self) -> MenuEntryView {
        match self {
            MenuEntry::Action { action, label } => MenuEntryView::Action(*action, label@),
            MenuEntry::ViewSelector { current } => MenuEntryView::ViewSelector(*current),
            MenuEntry::ThemeSelector { current } => MenuEntryView::ThemeSelector(*current),
            MenuEntry::OpacitySlider { percent } => MenuEntryView::OpacitySlider(*percent),
            MenuEntry::Separator => MenuEntryView::Separator,
        }
    }
}

} // verus!

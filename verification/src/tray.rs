//! The tray icon's menu and clicks.
use vstd::prelude::*;
use crate::text::text_is;

verus! {

/// The ids of the tray menu entries.
pub const MENU_SHOW: &'static str = "show";

pub const MENU_SETTINGS: &'static str = "settings";

pub const MENU_REFRESH: &'static str = "refresh";

pub const MENU_QUIT: &'static str = "quit";

/// What a tray menu entry does.
#[derive(Debug, Clone, Copy, PartialEq, Eq, Structural)]
pub enum TrayAction {
    ShowMain,
    OpenSettings,
    RefreshAll,
    Quit,
}

/// The action of the menu entry with id `id`, if it is one of the widget's.
pub fn menu_action(id: &str) -> (r: Option<TrayAction>)
    ensures
        r == if id@ == "show"@ {
            Some(TrayAction::ShowMain)
        } else if id@ == "settings"@ {
            Some(TrayAction::OpenSettings)
        } else if id@ == "refresh"@ {
            Some(TrayAction::RefreshAll)
        } else if id@ == "quit"@ {
            Some(TrayAction::Quit)
        } else {
            None
        },
{
    if text_is(id, MENU_SHOW) {
        Some(TrayAction::ShowMain)
    } else if text_is(id, MENU_SETTINGS) {
        Some(TrayAction::OpenSettings)
    } else if text_is(id, MENU_REFRESH) {
        Some(TrayAction::RefreshAll)
    } else if text_is(id, MENU_QUIT) {
        Some(TrayAction::Quit)
    } else {
        None
    }
}

/// A mouse event on the tray icon.
#[derive(Debug, Clone, Copy, PartialEq, Eq, Structural)]
pub enum TrayPointer {
    /// A click: which button, and whether it was released.
    Click { left: bool, released: bool },
    /// A double click with the given button.
    DoubleClick { left: bool },
    /// Anything else (entering, moving, leaving).
    Other,
}

/// Whether a tray event brings up the main window: a released left click or
/// a left double click.
pub fn should_show_main(event: TrayPointer) -> (r: bool)
    ensures
        r == match event {
            TrayPointer::Click { left, released } => left && released,
            TrayPointer::DoubleClick { left } => left,
            TrayPointer::Other => false,
        },
{
    match event {
        TrayPointer::Click { left, released } => left && released,
        TrayPointer::DoubleClick { left } => left,
        TrayPointer::Other => false,
    }
}

} // verus!

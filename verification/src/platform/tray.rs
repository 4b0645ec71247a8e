//! The system tray icon.

use crate::text::{owned, same_text};
use vstd::prelude::*;

verus! {

/// What the user asked for from the tray.
#[derive(Debug, Clone, Copy, PartialEq, Eq, Structural)]
pub enum TrayCommand {
    /// Left click, or the "Show main window" item.
    ShowMainWindow,
    /// The "Exit" item. A real quit, not a hide.
    Exit,
}

/// Text for the tray.
#[derive(Debug, PartialEq, Eq)]
pub struct TrayLabels {
    pub tooltip: String,
    pub show_main_window: String,
    pub exit: String,
}

impl TrayLabels {
    /// The labels the program starts with.
    pub fn standard() -> (r: Self)
        ensures
            r.tooltip@ == "SyncMaid"@,
            r.show_main_window@ == "Show main window"@,
            r.exit@ == "Exit"@,
    {
        TrayLabels {
            tooltip: owned("SyncMaid"),
            show_main_window: owned("Show main window"),
            exit: owned("Exit"),
        }
    }
}

/// The identifiers of the menu's two items.
#[derive(Debug, PartialEq, Eq)]
pub struct TrayMenu {
    pub show: String,
    pub exit: String,
}

impl TrayMenu {
    /// What choosing an item of the menu asks for, if it is one of ours.
    pub fn chosen(&self, item: &str) -> (r: Option<TrayCommand>)
        ensures
            r == if item@ == self.show@ {
                Some(TrayCommand::ShowMainWindow)
            } else if item@ == self.exit@ {
                Some(TrayCommand::Exit)
            } else {
                None
            },
    {
        if same_text(item, self.show.as_str()) {
            Some(TrayCommand::ShowMainWindow)
        } else if same_text(item, self.exit.as_str()) {
            Some(TrayCommand::Exit)
        } else {
            None
        }
    }
}

/// What a click on the icon asks for. Only a completed left click, so the menu's own right-click
/// does not also summon the window behind it.
pub fn clicked(left: bool, released: bool) -> (r: Option<TrayCommand>)
    ensures
        r == if left && released {
            Some(TrayCommand::ShowMainWindow)
        } else {
            None
        },
{
    if left && released {
        Some(TrayCommand::ShowMainWindow)
    } else {
        None
    }
}

} // verus!

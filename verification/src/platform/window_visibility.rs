//! Hiding the main window without destroying it, and keeping it hidden.
//!
//! The toolkit reads "the monitor my window was on is gone" as "the window was minimized", and
//! un-hides a window that was sitting quietly in the tray. Monitors going to sleep look exactly
//! like a disconnect. So a guard sits in front of the window and puts it back afterwards.

use vstd::prelude::*;

verus! {

/// What happens to the window.
#[derive(Debug, Clone, Copy, PartialEq, Eq, Structural)]
pub enum WindowMessage {
    /// A display came or went.
    DisplayChange,
    /// The window is going away.
    Destroyed,
    Other,
}

/// What the guard does after the message was handled.
#[derive(Debug, Clone, Copy, PartialEq, Eq, Structural)]
pub enum GuardAction {
    Nothing,
    /// Put the window back out of sight.
    Hide,
    /// Step out of the window's chain.
    Leave,
}

/// Whether nothing is on screen because we put it away, as opposed to the user minimizing it or
/// the system moving it off a dying monitor.
#[derive(Debug, Clone, Copy, PartialEq, Eq, Structural)]
pub struct WindowGuard {
    pub hidden_on_purpose: bool,
}

impl WindowGuard {
    /// A guard for a window that is hidden or not to begin with: it is when the program started
    /// minimized to the tray.
    pub fn new(hidden: bool) -> (r: Self)
        ensures
            r.hidden_on_purpose == hidden,
    {
        WindowGuard { hidden_on_purpose: hidden }
    }

    /// The window was shown or hidden.
    pub fn set_visible(&mut self, visible: bool)
        ensures
            final(self).hidden_on_purpose == !visible,
    {
        self.hidden_on_purpose = !visible;
    }

    /// What to do after a message was handled. The toolkit goes first: besides un-hiding the
    /// window it re-reads which monitor the window lives on, which is worth keeping.
    pub fn after(self, message: WindowMessage) -> (r: GuardAction)
        ensures
            r == match message {
                WindowMessage::Destroyed => GuardAction::Leave,
                WindowMessage::DisplayChange => if self.hidden_on_purpose {
                    GuardAction::Hide
                } else {
                    GuardAction::Nothing
                },
                WindowMessage::Other => GuardAction::Nothing,
            },
    {
        match message {
            WindowMessage::Destroyed => GuardAction::Leave,
            WindowMessage::DisplayChange => if self.hidden_on_purpose {
                GuardAction::Hide
            } else {
                GuardAction::Nothing
            },
            WindowMessage::Other => GuardAction::Nothing,
        }
    }
}

} // verus!

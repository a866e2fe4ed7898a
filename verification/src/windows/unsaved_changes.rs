//! The popup that asks whether to quit with unsaved changes.

use crate::windows::{PopupOutput, Window};
use vstd::prelude::*;

verus! {

/// The popup that asks whether to quit with unsaved changes. It holds the
/// answer that is chosen at the moment.
pub struct UnsavedChanges {
    pub should_quit: bool,
}

impl UnsavedChanges {
    /// The popup with "no" chosen.
    pub fn new() -> (popup: Self)
        ensures
            !popup.should_quit,
    {
        UnsavedChanges { should_quit: false }
    }

    /// Whether this popup is the window asked for.
    pub fn is_focusing(&self, window_type: Window) -> (focusing: bool)
        ensures
            focusing == (window_type == Window::UnsavedChanges),
    {
        window_type == Window::UnsavedChanges
    }

    /// Chooses "yes".
    pub fn left(&mut self)
        ensures
            final(self).should_quit,
    {
        if !self.should_quit {
            self.should_quit = true;
        }
    }

    /// Chooses "no".
    pub fn right(&mut self)
        ensures
            !final(self).should_quit,
    {
        if self.should_quit {
            self.should_quit = false;
        }
    }

    /// The answer that is chosen.
    pub fn get_user_input(&self) -> (output: PopupOutput<'_>)
        ensures
            output == PopupOutput::Boolean(self.should_quit),
    {
        PopupOutput::Boolean(self.should_quit)
    }

    /// The width and height of the popup.
    pub fn dimensions(&self) -> (size: Option<(u16, u16)>)
        ensures
            size == Some((50u16, 5u16)),
    {
        Some((50, 5))
    }
}

} // verus!

//! The confirmation dialogs that guard destructive lifecycle actions.
use vstd::prelude::*;

verus! {

#[derive(Debug, Clone, Copy, PartialEq, Eq, Structural)]
pub enum ClearDialogAction {
    Cancel,
    ConfirmClear,
}

#[derive(Debug, Default, Clone, PartialEq, Eq, Structural)]
pub struct LifecycleDialogState {
    pub clear_confirmation_open: bool,
    pub new_session_open: bool,
}

impl LifecycleDialogState {
    /// Opens the clear confirmation when there is something to clear, and
    /// closes it otherwise.
    pub fn request_clear(&mut self, non_empty: bool)
        ensures
            final(self).clear_confirmation_open == non_empty,
            final(self).new_session_open == old(self).new_session_open,
    {
        self.clear_confirmation_open = non_empty;
    }

    /// Closes the clear confirmation; returns whether the canvas is to be
    /// cleared, which only an explicit confirmation allows.
    pub fn clear_transition(&mut self, a: ClearDialogAction) -> (clear: bool)
        ensures
            clear == (a == ClearDialogAction::ConfirmClear),
            !final(self).clear_confirmation_open,
            final(self).new_session_open == old(self).new_session_open,
    {
        match a {
            ClearDialogAction::Cancel => {
                self.clear_confirmation_open = false;
                false
            },
            ClearDialogAction::ConfirmClear => {
                self.clear_confirmation_open = false;
                true
            },
        }
    }
}

} // verus!

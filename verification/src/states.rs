//! The two modes the application runs in.

use vstd::prelude::*;

verus! {

/// Mode of the application.
#[derive(Clone, Copy, PartialEq, Eq, Structural, Debug, Hash)]
pub enum AppStates {
    Editor,
    Gameplay,
}

impl AppStates {
    /// The other mode.
    pub open spec fn toggled(self) -> AppStates {
        match self {
            AppStates::Editor => AppStates::Gameplay,
            AppStates::Gameplay => AppStates::Editor,
        }
    }

    /// The mode to switch to: the other one.
    pub fn next(&self) -> (state: AppStates)
        ensures
            state == self.toggled(),
    {
        match self {
            AppStates::Editor => AppStates::Gameplay,
            AppStates::Gameplay => AppStates::Editor,
        }
    }
}

} // verus!

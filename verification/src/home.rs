//! State of the home screen.

use vstd::prelude::*;

verus! {

/// How many recipes the home screen shows when nothing else is known.
pub open spec fn spec_default_loaded() -> u32 {
    10
}

/// The number of recipes loaded into view when none was stored.
pub fn default_loaded() -> (n: u32)
    ensures
        n == spec_default_loaded(),
{
    10
}

/// All state needed by the home screen.
#[derive(Clone, Copy, Debug, PartialEq, Eq, Structural)]
pub struct HomeState {
    /// How many recipes are currently loaded in view.
    pub loaded: u32,
}

impl Default for HomeState {
    fn default() -> (state: HomeState)
        ensures
            state.loaded == spec_default_loaded(),
    {
        HomeState { loaded: default_loaded() }
    }
}

} // verus!

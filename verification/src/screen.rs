//! Which screen is in view.

use vstd::prelude::*;

verus! {

/// All screens that can be in view.
#[derive(Clone, Copy, Debug, PartialEq, Eq, Structural)]
pub enum AppScreen {
    /// The main screen, with the search bar and the recent recipes.
    Home,
    /// The results of a query.
    SearchResults,
}

} // verus!

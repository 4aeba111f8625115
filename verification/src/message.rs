//! The user intents that the state logic reacts to.

use vstd::prelude::*;

verus! {

/// A dashboard status filter chip.
#[derive(Debug, Clone, Copy, PartialEq, Eq, Structural)]
pub enum StatusFilter {
    AllSet,
    Behind,
    Ahead,
    Dirty,
    Conflict,
    NeedsHelp,
}

/// A change to the dashboard filter.
#[derive(Debug, Clone)]
pub enum FilterMessage {
    SearchChanged(String),
    GroupChanged(Option<String>),
    StatusFilterToggled(StatusFilter),
    AllFiltersCleared,
}

} // verus!

//! The context that tasks run in.

use vstd::prelude::*;

use crate::payload::Payload;

verus! {

/// What tasks read of the application's context.
#[derive(Clone, Copy, Debug, PartialEq, Eq)]
pub struct AppContext {
    /// How state transitions are to be created, where that is set.
    pub state_transition_options: Option<Payload>,
}

} // verus!

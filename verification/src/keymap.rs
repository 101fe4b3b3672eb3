//! Events the keyboard layer hands to the reactor state, and the trait a
//! reactor state implements to consume them.

use vstd::prelude::*;

use crate::application::AppState;

verus! {

/// What a keyboard-driven event asks of the application.
#[derive(Clone, Copy, Debug, PartialEq, Eq, Structural)]
pub enum AppKeymapEvents {
    /// End the lock session.
    Terminate,
    /// Show this indicator state.
    IndicatorState(AppState),
}

/// Implemented by the reactor state that consumes keyboard-driven events.
pub trait DispatchKeymapEvents {
    fn event(state: &mut Self, event: AppKeymapEvents);
}

} // verus!

//! The small state types: the phase of a batch, what the asset server says
//! of a single load, and the misuse of a loader.

use vstd::prelude::*;

verus! {

/// Phase of a batch in a loader.
#[derive(Debug, Clone, Copy, PartialEq, Eq, Structural)]
pub enum State {
    /// Idle: requests may be enqueued.
    Ready,
    /// The batch was submitted and at least one request may still be pending.
    Loading,
    /// The last pending request of the submitted batch has come to an end.
    Done,
}

/// What the asset server reports of one load at one instant.
#[derive(Debug, Clone, Copy, PartialEq, Eq, Structural)]
pub enum LoadState {
    /// The server has not begun loading the asset.
    NotLoaded,
    /// The load is under way.
    Loading,
    /// The asset is loaded.
    Loaded,
    /// The load failed.
    Failed,
    /// The asset had been loaded and was released again.
    Unloaded,
}

/// A call that the phase of the batch does not allow.
#[derive(Debug, Clone, Copy, PartialEq, Eq, Structural)]
pub enum ContractViolation {
    /// Requests are enqueued and submitted only while the loader is idle.
    NotReady,
}

impl LoadState {
    /// A polled load in this state has come to an end, well or badly.
    pub open spec fn finished(self) -> bool {
        self == LoadState::Loaded || self == LoadState::Failed
    }

    /// A load that was just started and is in this state has to be waited for.
    pub open spec fn in_progress(self) -> bool {
        self == LoadState::NotLoaded || self == LoadState::Loading
    }

    /// Whether a load that is being polled has come to an end.
    pub fn is_finished(self) -> (b: bool)
        ensures
            b == self.finished(),
    {
        match self {
            LoadState::Loaded | LoadState::Failed => true,
            LoadState::NotLoaded | LoadState::Loading | LoadState::Unloaded => false,
        }
    }

    /// Whether a load that was just started has to be waited for.
    pub fn is_in_progress(self) -> (b: bool)
        ensures
            b == self.in_progress(),
    {
        match self {
            LoadState::NotLoaded | LoadState::Loading => true,
            LoadState::Loaded | LoadState::Failed | LoadState::Unloaded => false,
        }
    }
}

} // verus!

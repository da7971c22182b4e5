//! State kept on disk so that a pending commit message survives a crash.
use vstd::prelude::*;

verus! {

/// Version of the stored state format.
pub const CURRENT_VERSION: u32 = 1;

/// Persistent application state for crash recovery.
pub struct PersistentState {
    /// The generated commit message that was pending user review
    pub pending_message: Option<String>,
    /// The repository path where generation occurred
    pub repo_path: Option<String>,
    /// Timestamp of when the state was saved
    pub timestamp: u64,
    /// Version of the state format for migrations
    pub version: u32,
}

impl PersistentState {
    /// Empty state in the current format.
    pub fn new() -> (s: Self)
        ensures
            s.pending_message is None,
            s.repo_path is None,
            s.timestamp == 0,
            s.version == CURRENT_VERSION,
    {
        PersistentState { pending_message: None, repo_path: None, timestamp: 0, version: CURRENT_VERSION }
    }

    /// Whether a message is waiting to be recovered.
    pub fn has_pending_recovery(&self) -> (b: bool)
        ensures
            b == self.pending_message is Some,
    {
        self.pending_message.is_some()
    }

    /// What loading keeps of a decoded state: states stored in another format
    /// version are ignored.
    pub fn accept_loaded(state: PersistentState) -> (r: Option<PersistentState>)
        ensures
            state.version == CURRENT_VERSION ==> r == Some(state),
            state.version != CURRENT_VERSION ==> r is None,
    {
        if state.version != CURRENT_VERSION {
            return None;
        }
        Some(state)
    }
}

impl Default for PersistentState {
    fn default() -> (s: Self)
        ensures
            s.pending_message is None,
            s.repo_path is None,
            s.timestamp == 0,
            s.version == CURRENT_VERSION,
    {
        Self::new()
    }
}

} // verus!

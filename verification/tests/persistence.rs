use christina::persistence::{PersistentState, CURRENT_VERSION};

#[test]
fn persistent_state_new() {
    let state = PersistentState::new();
    assert!(state.pending_message.is_none());
    assert!(state.repo_path.is_none());
    assert_eq!(state.version, CURRENT_VERSION);
}

#[test]
fn persistent_state_has_pending_recovery() {
    let mut state = PersistentState::new();
    assert!(!state.has_pending_recovery());

    state.pending_message = Some("feat: test".to_string());
    assert!(state.has_pending_recovery());
}

#[test]
fn loaded_state_of_other_version_is_ignored() {
    let mut state = PersistentState::new();
    state.version = 2;
    assert!(PersistentState::accept_loaded(state).is_none());
    let current = PersistentState::new();
    assert!(PersistentState::accept_loaded(current).is_some());
}

//! The session protocol driven end to end against the in-memory store.

use diary::day::Day;
use diary::memory::Memory;
use diary::session::{perform_action, session_step, Action, Event, SessionState};
use diary::store::Store;

/// Drives one session over the given store: feeds the events one at a time,
/// performs each returned action, and collects what the server sends back.
fn drive(
    store: &mut Memory,
    secret: &String,
    today: &Day,
    events: Vec<Event>,
) -> (SessionState, Vec<String>) {
    let mut state = SessionState::Authenticating;
    let mut sent: Vec<String> = Vec::new();
    for event in events {
        let (next, action) = session_step(state, secret, event);
        state = next;
        match perform_action(store, today, action) {
            Ok(Some(content)) => sent.push(content),
            Ok(None) => {}
            Err(_) => {
                let (next, _) = session_step(state, secret, Event::StoreFailed);
                state = next;
            }
        }
    }
    (state, sent)
}

#[test]
fn auth_gate_rejects_until_match() {
    let secret = String::from("hunter2");
    let mut state = SessionState::Authenticating;
    for wrong in ["", "hunter", "HUNTER2", "hunter2 "] {
        let (next, action) = session_step(state, &secret, Event::Message(wrong.to_string()));
        assert!(matches!(next, SessionState::Authenticating));
        assert!(matches!(action, Action::DenyAccess));
        state = next;
    }
    let (next, action) = session_step(state, &secret, Event::Message("hunter2".to_string()));
    assert!(matches!(next, SessionState::Authenticated));
    assert!(matches!(action, Action::SendLatest));
}

#[test]
fn no_store_happens_before_authentication() {
    let secret = String::from("open");
    let today = Day::new(2026, 10, 11).unwrap();
    let mut store = Memory::new();
    let (state, sent) = drive(
        &mut store,
        &secret,
        &today,
        vec![
            Event::Message("try one".to_string()),
            Event::Message("try two".to_string()),
        ],
    );
    assert!(matches!(state, SessionState::Authenticating));
    assert!(sent.is_empty());
    assert_eq!(store.retrieve_latest(&today), "");
}

#[test]
fn disconnect_while_authenticating_closes() {
    let secret = String::from("open");
    let (state, action) = session_step(SessionState::Authenticating, &secret, Event::Disconnected);
    assert!(matches!(state, SessionState::Closed));
    assert!(matches!(action, Action::Ignore));
}

#[test]
fn disconnect_while_authenticated_closes() {
    let secret = String::from("open");
    let (state, action) = session_step(SessionState::Authenticated, &secret, Event::Disconnected);
    assert!(matches!(state, SessionState::Closed));
    assert!(matches!(action, Action::Ignore));
}

#[test]
fn store_failure_closes_the_session() {
    let secret = String::from("open");
    let (state, action) = session_step(SessionState::Authenticated, &secret, Event::StoreFailed);
    assert!(matches!(state, SessionState::Closed));
    assert!(matches!(action, Action::Ignore));
}

#[test]
fn closed_state_absorbs_everything() {
    let secret = String::from("open");
    for event in [
        Event::Message("open".to_string()),
        Event::Disconnected,
        Event::StoreFailed,
    ] {
        let (state, action) = session_step(SessionState::Closed, &secret, event);
        assert!(matches!(state, SessionState::Closed));
        assert!(matches!(action, Action::Ignore));
    }
}

#[test]
fn empty_message_is_skipped_without_storing() {
    let secret = String::from("open");
    let today = Day::new(2026, 10, 11).unwrap();
    let mut store = Memory::new();
    let (state, sent) = drive(
        &mut store,
        &secret,
        &today,
        vec![
            Event::Message("open".to_string()),
            Event::Message("kept text".to_string()),
            Event::Message(String::new()),
        ],
    );
    assert!(matches!(state, SessionState::Authenticated));
    assert_eq!(sent, vec![String::new()]);
    assert_eq!(store.retrieve_latest(&today), "kept text");
}

#[test]
fn scenario_wrong_then_open_then_reconnect() {
    let secret = String::from("open");
    let today = Day::new(2026, 10, 11).unwrap();
    let mut store = Memory::new();

    // First connection: one refused attempt, then the secret, then content.
    let (state, sent) = drive(
        &mut store,
        &secret,
        &today,
        vec![
            Event::Message("wrong".to_string()),
            Event::Message("open".to_string()),
            Event::Message("hello world".to_string()),
            Event::Disconnected,
        ],
    );
    assert!(matches!(state, SessionState::Closed));
    assert_eq!(sent, vec![String::new()]);

    // Reconnect on the same day: re-authenticate, get the content back.
    let (state, sent) = drive(
        &mut store,
        &secret,
        &today,
        vec![Event::Message("open".to_string())],
    );
    assert!(matches!(state, SessionState::Authenticated));
    assert_eq!(sent, vec!["hello world".to_string()]);
}

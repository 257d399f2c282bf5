//! The session protocol: one session per connection, driven as a state
//! machine. The session authenticates against the shared secret, then
//! announces today's content once, then turns every non-empty message into
//! a store of today's entry, until the connection is lost or a store fails.
//!
//! The machine is a pure step function from state and event to next state
//! and action; the connection loop outside the library reads one event at a
//! time, performs the returned action, and feeds the outcome back in.

use vstd::prelude::*;

use crate::day::Day;
use crate::error::Error;
use crate::store::{retrieve_model, store_model, Store};

verus! {

/// Where a session stands.
#[derive(Clone, Copy, PartialEq, Eq, Structural, Debug)]
pub enum SessionState {
    /// Connected, waiting for a message equal to the secret.
    Authenticating,
    /// The secret was spoken; messages now overwrite today's entry.
    Authenticated,
    /// Terminal: the connection is released, no further backend calls.
    Closed,
}

/// What the connection hands the session.
pub enum Event {
    /// One complete text message arrived.
    Message(String),
    /// The connection failed or was closed while reading.
    Disconnected,
    /// The storage backend refused the previous store.
    StoreFailed,
}

/// The mathematical image of an event.
pub enum EventV {
    Message(Seq<char>),
    Disconnected,
    StoreFailed,
}

impl View for Event {
    type V = EventV;

    open spec fn view(&self) -> EventV {
        match self {
            Event::Message(m) => EventV::Message(m@),
            Event::Disconnected => EventV::Disconnected,
            Event::StoreFailed => EventV::StoreFailed,
        }
    }
}

/// What the session asks the connection loop to do.
pub enum Action {
    /// Log the refused attempt; nothing is sent back.
    DenyAccess,
    /// Retrieve today's entry and send it to the client, once.
    SendLatest,
    /// Replace today's entry with the message's content.
    StoreContent(String),
    /// Do nothing.
    Ignore,
}

/// The mathematical image of an action.
pub enum ActionV {
    DenyAccess,
    SendLatest,
    StoreContent(Seq<char>),
    Ignore,
}

impl View for Action {
    type V = ActionV;

    open spec fn view(&self) -> ActionV {
        match self {
            Action::DenyAccess => ActionV::DenyAccess,
            Action::SendLatest => ActionV::SendLatest,
            Action::StoreContent(c) => ActionV::StoreContent(c@),
            Action::Ignore => ActionV::Ignore,
        }
    }
}

/// The state after one step.
pub open spec fn step_state(state: SessionState, secret: Seq<char>, ev: EventV) -> SessionState {
    match (state, ev) {
        (SessionState::Authenticating, EventV::Message(m)) => if m == secret {
            SessionState::Authenticated
        } else {
            SessionState::Authenticating
        },
        (SessionState::Authenticating, _) => SessionState::Closed,
        (SessionState::Authenticated, EventV::Message(_)) => SessionState::Authenticated,
        (SessionState::Authenticated, _) => SessionState::Closed,
        (SessionState::Closed, _) => SessionState::Closed,
    }
}

/// The action emitted by one step.
pub open spec fn step_action(state: SessionState, secret: Seq<char>, ev: EventV) -> ActionV {
    match (state, ev) {
        (SessionState::Authenticating, EventV::Message(m)) => if m == secret {
            ActionV::SendLatest
        } else {
            ActionV::DenyAccess
        },
        (SessionState::Authenticated, EventV::Message(m)) => if m.len() == 0 {
            ActionV::Ignore
        } else {
            ActionV::StoreContent(m)
        },
        (_, _) => ActionV::Ignore,
    }
}

/// Whether an action touches the stored data or the client: retrieving and
/// sending today's entry, or overwriting it.
pub open spec fn action_touches_data(a: ActionV) -> bool {
    a is SendLatest || a is StoreContent
}

/// How an action changes the stored contents on day `d`: only a store
/// does.
pub open spec fn action_effect(m: Map<Day, Seq<char>>, d: Day, a: ActionV) -> Map<Day, Seq<char>> {
    match a {
        ActionV::StoreContent(c) => store_model(m, d, c),
        _ => m,
    }
}

/// Advances the session by one event: the next state and the action the
/// connection loop must perform.
pub fn session_step(state: SessionState, secret: &String, event: Event) -> (r: (
    SessionState,
    Action,
))
    ensures
        r.0 == step_state(state, secret@, event@),
        r.1@ == step_action(state, secret@, event@),
{
    match state {
        SessionState::Authenticating => match event {
            Event::Message(m) => {
                if m == *secret {
                    (SessionState::Authenticated, Action::SendLatest)
                } else {
                    (SessionState::Authenticating, Action::DenyAccess)
                }
            },
            _ => (SessionState::Closed, Action::Ignore),
        },
        SessionState::Authenticated => match event {
            Event::Message(m) => {
                if m.as_str().is_empty() {
                    (SessionState::Authenticated, Action::Ignore)
                } else {
                    (SessionState::Authenticated, Action::StoreContent(m))
                }
            },
            _ => (SessionState::Closed, Action::Ignore),
        },
        SessionState::Closed => (SessionState::Closed, Action::Ignore),
    }
}

/// Performs the storage side of an action on the session's backend:
/// `SendLatest` retrieves today's entry and hands back the message owed to
/// the client, `StoreContent` overwrites today's entry, everything else
/// leaves both untouched. A failed store surfaces as the backend's error.
pub fn perform_action<S: Store>(store: &mut S, today: &Day, action: Action) -> (r: Result<
    Option<String>,
    Error,
>)
    requires
        old(store).inv(),
        today.wf(),
    ensures
        final(store).inv(),
        r is Ok ==> final(store).contents() == action_effect(
            old(store).contents(),
            *today,
            action@,
        ),
        r is Err ==> final(store).contents() == old(store).contents(),
        r matches Ok(Some(c)) ==> action@ is SendLatest,
        action@ is SendLatest ==> (r matches Ok(Some(c)) && c@ == retrieve_model(
            old(store).contents(),
            *today,
        )),
        action@ is DenyAccess || action@ is Ignore ==> r matches Ok(None),
        action@ is StoreContent ==> (r is Err || r matches Ok(None)),
{
    match action {
        Action::SendLatest => {
            let content = store.retrieve_latest(today);
            Ok(Some(content))
        },
        Action::StoreContent(content) => {
            match store.store(today, content.as_str()) {
                Ok(_) => Ok(None),
                Err(e) => Err(e),
            }
        },
        _ => Ok(None),
    }
}

/// The state a fresh session is in after the events seen so far.
pub open spec fn run_states(secret: Seq<char>, evs: Seq<EventV>) -> SessionState
    decreases evs.len(),
{
    if evs.len() == 0 {
        SessionState::Authenticating
    } else {
        step_state(run_states(secret, evs.drop_last()), secret, evs.last())
    }
}

/// The action the session emits on the event at index `i`.
pub open spec fn action_at(secret: Seq<char>, evs: Seq<EventV>, i: int) -> ActionV {
    step_action(run_states(secret, evs.take(i)), secret, evs[i])
}

proof fn lemma_still_authenticating(secret: Seq<char>, evs: Seq<EventV>, k: int, i: int)
    requires
        0 <= i <= k <= evs.len(),
        forall|j: int| 0 <= j < k ==> ((#[trigger] evs[j]) matches EventV::Message(m) && m != secret),
    ensures
        run_states(secret, evs.take(i)) is Authenticating,
    decreases i,
{
    if i > 0 {
        lemma_still_authenticating(secret, evs, k, i - 1);
        assert(evs.take(i).drop_last() =~= evs.take(i - 1));
        assert(evs.take(i).last() == evs[i - 1]);
        assert(evs[i - 1] matches EventV::Message(m) && m != secret);
    }
}

/// Law (the authentication gate): for any run of messages that do not match
/// the secret followed by one that does, the session stays in
/// `Authenticating` — emitting only access-denied signals, touching neither
/// the stored data nor the client — until the matching message, and becomes
/// `Authenticated` exactly on it, announcing today's entry.
pub proof fn lemma_auth_gate(secret: Seq<char>, evs: Seq<EventV>, k: int)
    requires
        0 <= k < evs.len(),
        forall|j: int| 0 <= j < k ==> ((#[trigger] evs[j]) matches EventV::Message(m) && m != secret),
        evs[k] matches EventV::Message(m) && m == secret,
    ensures
        forall|i: int| 0 <= i <= k ==> run_states(secret, evs.take(i)) is Authenticating,
        run_states(secret, evs.take(k + 1)) is Authenticated,
        forall|i: int| 0 <= i < k ==> action_at(secret, evs, i) is DenyAccess,
        forall|i: int| 0 <= i < k ==> !action_touches_data(action_at(secret, evs, i)),
        action_at(secret, evs, k) is SendLatest,
{
    assert forall|i: int| 0 <= i <= k implies run_states(secret, evs.take(i)) is Authenticating by {
        lemma_still_authenticating(secret, evs, k, i);
    }
    assert(evs.take(k + 1).drop_last() =~= evs.take(k));
    assert(evs.take(k + 1).last() == evs[k]);
}

proof fn lemma_no_return_to_authenticating(secret: Seq<char>, evs: Seq<EventV>, i: int, j: int)
    requires
        0 <= i <= j <= evs.len(),
        !(run_states(secret, evs.take(i)) is Authenticating),
    ensures
        !(run_states(secret, evs.take(j)) is Authenticating),
    decreases j - i,
{
    if j > i {
        lemma_no_return_to_authenticating(secret, evs, i, j - 1);
        assert(evs.take(j).drop_last() =~= evs.take(j - 1));
        assert(evs.take(j).last() == evs[j - 1]);
    }
}

/// Law (the announcement happens once): today's entry is announced to the
/// client at most once per session: no event sequence makes the session
/// emit `SendLatest` at two different points.
pub proof fn lemma_send_latest_at_most_once(secret: Seq<char>, evs: Seq<EventV>, i: int, j: int)
    requires
        0 <= i < j < evs.len(),
        action_at(secret, evs, i) is SendLatest,
    ensures
        !(action_at(secret, evs, j) is SendLatest),
{
    assert(run_states(secret, evs.take(i)) is Authenticating);
    assert(evs[i] matches EventV::Message(m) && m == secret);
    assert(evs.take(i + 1).drop_last() =~= evs.take(i));
    assert(evs.take(i + 1).last() == evs[i]);
    assert(run_states(secret, evs.take(i + 1)) is Authenticated);
    lemma_no_return_to_authenticating(secret, evs, i + 1, j);
}

/// Law (closed is terminal and quiet): once a session is closed, every
/// further event leaves it closed and asks the connection loop for
/// nothing; in particular no backend call follows.
pub proof fn lemma_closed_stays_closed(secret: Seq<char>, ev: EventV)
    ensures
        step_state(SessionState::Closed, secret, ev) is Closed,
        step_action(SessionState::Closed, secret, ev) is Ignore,
        !action_touches_data(step_action(SessionState::Closed, secret, ev)),
{
}

/// Law (empty payloads are skipped): an empty message received in the
/// authenticated state leaves the session authenticated, emits no store,
/// and therefore leaves the stored contents of every day untouched.
pub proof fn lemma_empty_message_is_noop(
    secret: Seq<char>,
    m: Seq<char>,
    contents: Map<Day, Seq<char>>,
    today: Day,
)
    requires
        m.len() == 0,
    ensures
        step_state(SessionState::Authenticated, secret, EventV::Message(m))
            is Authenticated,
        step_action(SessionState::Authenticated, secret, EventV::Message(m)) is Ignore,
        action_effect(
            contents,
            today,
            step_action(SessionState::Authenticated, secret, EventV::Message(m)),
        ) == contents,
{
}

} // verus!

//! The persistent-session protocol against the MQTT broker.
//!
//! `init_session` creates a durable session (a named subscription set the
//! broker keeps across connections); `clear_session` destroys it together
//! with every message queued for it. Both are finite acknowledgment
//! dialogues: connect, read the connection acknowledgment, possibly
//! subscribe and read the subscription acknowledgment, disconnect.
//!
//! This module holds everything those dialogues decide: the configuration
//! preconditions, the connect options each dialogue uses, and the state
//! machine that maps every transport event to the next state and action.
//! The executable layer drives the machine: it performs each returned
//! action against the broker and feeds the next event back in.

use vstd::prelude::*;

verus! {

/// Configuration of a broker session.
pub struct SessionConfig {
    /// Client identity the broker keys the durable session by.
    pub session_name: Option<String>,
    /// When true the broker keeps no state for this client between
    /// connections; incompatible with creating a durable session.
    pub clean_session: bool,
    /// Topic filters the session subscribes to.
    pub subscriptions: Vec<String>,
    /// Capacity of the request queue towards the transport client.
    pub queue_capacity: usize,
}

/// Reason code of the broker's connection acknowledgment.
#[derive(Clone, Copy, Debug, PartialEq, Eq, Structural)]
pub enum ConnAckCode {
    Success,
    RefusedProtocolVersion,
    BadClientId,
    ServiceUnavailable,
    BadUserNamePassword,
    NotAuthorized,
}

/// Errors a session operation surfaces to its caller.
#[derive(Clone, Copy, Debug, PartialEq, Eq, Structural)]
pub enum SessionError {
    /// The configuration cannot name a durable session; returned before
    /// any network activity is attempted.
    InvalidSessionConfig,
    /// The broker acknowledged the connection with a non-success reason
    /// code.
    ConnectionRefused(ConnAckCode),
}

/// A transport event, as far as the session dialogues read it.
#[derive(Clone, Copy, Debug, PartialEq, Eq, Structural)]
pub enum SessionEvent {
    /// The broker acknowledged the connection.
    ConnAck(ConnAckCode),
    /// The broker acknowledged a subscription.
    SubAck,
    /// The transport failed. `refused_success` marks the one tolerated
    /// quirk: a connection-refused error carrying the success reason code,
    /// which some brokers emit transiently during session creation.
    TransportError { refused_success: bool },
    /// Any other packet; the dialogues ignore it.
    Other,
}

/// Where a session dialogue stands.
#[derive(Clone, Copy, Debug, PartialEq, Eq, Structural)]
pub enum SessionState {
    /// Waiting for the connection acknowledgment.
    Connecting,
    /// Subscribe was issued; waiting for the subscription acknowledgment.
    Subscribing,
}

/// What the driver of a session dialogue must do next.
#[derive(Clone, Copy, Debug, PartialEq, Eq)]
pub enum SessionStep {
    /// Keep polling in the given state.
    Poll(SessionState),
    /// Issue the multi-topic subscribe for the configured filters, then
    /// keep polling in the given state.
    Subscribe(SessionState),
    /// The dialogue is over: disconnect (best effort, errors on disconnect
    /// are ignored) and return this result.
    Finish(Result<(), SessionError>),
}

/// Connect options a session dialogue opens its connection with.
#[derive(Debug, PartialEq, Eq)]
pub struct ConnectPlan {
    /// Session name to present to the broker.
    pub session_name: String,
    /// Clean-session flag for this connection.
    pub clean_session: bool,
}

/// Whether `config` can name a durable session to create.
pub open spec fn valid_init_config(config: SessionConfig) -> bool {
    !config.clean_session && config.session_name is Some
}

/// Whether `config` can name a session to clear.
pub open spec fn valid_clear_config(config: SessionConfig) -> bool {
    config.session_name is Some
}

/// Check the preconditions of `init_session` and derive the connect
/// options: the configured session name, with a persistent (non-clean)
/// connection.
///
/// Fails with `InvalidSessionConfig`, before any network activity, exactly
/// when a clean session is requested or no session name is set.
pub fn init_session_start(config: &SessionConfig) -> (r: Result<ConnectPlan, SessionError>)
    ensures
        r is Err <==> !valid_init_config(*config),
        r matches Err(e) ==> e == SessionError::InvalidSessionConfig,
        r matches Ok(plan) ==> plan.session_name@ == config.session_name->0@
            && !plan.clean_session,
{
    if config.clean_session || config.session_name.is_none() {
        return Err(SessionError::InvalidSessionConfig);
    }
    let name = config.session_name.as_ref().unwrap();
    Ok(ConnectPlan { session_name: name.clone(), clean_session: false })
}

/// Check the preconditions of `clear_session` and derive the connect
/// options: the configured session name, with the clean-session flag forced
/// on regardless of the configured flag, which is what makes the broker
/// discard the session.
///
/// Fails with `InvalidSessionConfig`, before any network activity, exactly
/// when no session name is set.
pub fn clear_session_start(config: &SessionConfig) -> (r: Result<ConnectPlan, SessionError>)
    ensures
        r is Err <==> !valid_clear_config(*config),
        r matches Err(e) ==> e == SessionError::InvalidSessionConfig,
        r matches Ok(plan) ==> plan.session_name@ == config.session_name->0@
            && plan.clean_session,
{
    if config.session_name.is_none() {
        return Err(SessionError::InvalidSessionConfig);
    }
    let name = config.session_name.as_ref().unwrap();
    Ok(ConnectPlan { session_name: name.clone(), clean_session: true })
}

/// The transition table of the session-creation dialogue.
///
/// On a successful connection acknowledgment the dialogue subscribes to the
/// configured filters and waits for the broker's subscription
/// acknowledgment, or finishes at once when there is nothing to subscribe
/// to. A refused connection surfaces the reason code. A transport error
/// ends the dialogue without failing it, since creating a session is
/// idempotent and safe to retry; the one exception is the tolerated
/// connection-refused-with-success quirk, which is ignored.
pub open spec fn spec_init_session_step(
    state: SessionState,
    event: SessionEvent,
    has_subscriptions: bool,
) -> SessionStep {
    match event {
        SessionEvent::ConnAck(code) => {
            if code != ConnAckCode::Success {
                SessionStep::Finish(Err(SessionError::ConnectionRefused(code)))
            } else if state == SessionState::Connecting && has_subscriptions {
                SessionStep::Subscribe(SessionState::Subscribing)
            } else if state == SessionState::Connecting {
                SessionStep::Finish(Ok(()))
            } else {
                SessionStep::Poll(state)
            }
        },
        SessionEvent::SubAck => {
            if state == SessionState::Subscribing {
                SessionStep::Finish(Ok(()))
            } else {
                SessionStep::Poll(state)
            }
        },
        SessionEvent::TransportError { refused_success } => {
            if refused_success {
                SessionStep::Poll(state)
            } else {
                SessionStep::Finish(Ok(()))
            }
        },
        SessionEvent::Other => SessionStep::Poll(state),
    }
}

/// One step of the session-creation dialogue.
pub fn init_session_step(state: SessionState, event: &SessionEvent, has_subscriptions: bool) -> (r:
    SessionStep)
    ensures
        r == spec_init_session_step(state, *event, has_subscriptions),
{
    match *event {
        SessionEvent::ConnAck(code) => {
            if code != ConnAckCode::Success {
                SessionStep::Finish(Err(SessionError::ConnectionRefused(code)))
            } else if matches!(state, SessionState::Connecting) && has_subscriptions {
                SessionStep::Subscribe(SessionState::Subscribing)
            } else if matches!(state, SessionState::Connecting) {
                SessionStep::Finish(Ok(()))
            } else {
                SessionStep::Poll(state)
            }
        },
        SessionEvent::SubAck => {
            if matches!(state, SessionState::Subscribing) {
                SessionStep::Finish(Ok(()))
            } else {
                SessionStep::Poll(state)
            }
        },
        SessionEvent::TransportError { refused_success } => {
            if refused_success {
                SessionStep::Poll(state)
            } else {
                SessionStep::Finish(Ok(()))
            }
        },
        SessionEvent::Other => SessionStep::Poll(state),
    }
}

/// The transition table of the session-clearing dialogue: any connection
/// acknowledgment ends it (the connection itself, opened with the clean
/// flag, already discarded the session), a refused connection still
/// surfaces its reason code, and any transport error ends it without
/// failing it.
pub open spec fn spec_clear_session_step(state: SessionState, event: SessionEvent) -> SessionStep {
    match event {
        SessionEvent::ConnAck(code) => {
            if code != ConnAckCode::Success {
                SessionStep::Finish(Err(SessionError::ConnectionRefused(code)))
            } else {
                SessionStep::Finish(Ok(()))
            }
        },
        SessionEvent::TransportError { .. } => SessionStep::Finish(Ok(())),
        _ => SessionStep::Poll(state),
    }
}

/// One step of the session-clearing dialogue.
pub fn clear_session_step(state: SessionState, event: &SessionEvent) -> (r: SessionStep)
    ensures
        r == spec_clear_session_step(state, *event),
{
    match *event {
        SessionEvent::ConnAck(code) => {
            if code != ConnAckCode::Success {
                SessionStep::Finish(Err(SessionError::ConnectionRefused(code)))
            } else {
                SessionStep::Finish(Ok(()))
            }
        },
        SessionEvent::TransportError { .. } => SessionStep::Finish(Ok(())),
        _ => SessionStep::Poll(state),
    }
}

/// Broker-side record of one durable session.
pub ghost struct SessionRecord {
    /// The topic filters the session is subscribed to.
    pub subscriptions: Set<Seq<char>>,
    /// Messages the broker has queued for the session while it was
    /// disconnected, oldest first.
    pub queued: Seq<Seq<char>>,
}

/// Effect of a completed `init_session` on the broker's session table:
/// the named session subscribes to the given filters; messages already
/// queued for an existing session of that name are left untouched, and a
/// new session starts with none.
pub open spec fn init_session_effect(
    sessions: Map<Seq<char>, SessionRecord>,
    name: Seq<char>,
    subscriptions: Set<Seq<char>>,
) -> Map<Seq<char>, SessionRecord> {
    let queued = if sessions.contains_key(name) {
        sessions[name].queued
    } else {
        Seq::<Seq<char>>::empty()
    };
    sessions.insert(name, SessionRecord { subscriptions, queued })
}

/// Effect of a completed `clear_session` on the broker's session table:
/// the named session is gone, subscriptions and queued messages with it.
pub open spec fn clear_session_effect(
    sessions: Map<Seq<char>, SessionRecord>,
    name: Seq<char>,
) -> Map<Seq<char>, SessionRecord> {
    sessions.remove(name)
}

/// Creating a session twice with the same name and subscriptions is the
/// same as creating it once: no duplicate subscription, no queued message
/// consumed or lost.
pub proof fn lemma_init_session_idempotent(
    sessions: Map<Seq<char>, SessionRecord>,
    name: Seq<char>,
    subscriptions: Set<Seq<char>>,
)
    ensures
        init_session_effect(init_session_effect(sessions, name, subscriptions), name, subscriptions)
            == init_session_effect(sessions, name, subscriptions),
{
    let once = init_session_effect(sessions, name, subscriptions);
    let twice = init_session_effect(once, name, subscriptions);
    assert(twice =~= once);
}

/// Clearing a session twice is the same as clearing it once.
pub proof fn lemma_clear_session_idempotent(sessions: Map<Seq<char>, SessionRecord>, name: Seq<char>)
    ensures
        clear_session_effect(clear_session_effect(sessions, name), name) == clear_session_effect(
            sessions,
            name,
        ),
{
    assert(clear_session_effect(clear_session_effect(sessions, name), name)
        =~= clear_session_effect(sessions, name));
}

/// Clearing is irreversible for queued messages: a session re-created
/// after a clear starts with an empty queue, whatever had been queued
/// before.
pub proof fn lemma_clear_session_discards_queue(
    sessions: Map<Seq<char>, SessionRecord>,
    name: Seq<char>,
    subscriptions: Set<Seq<char>>,
)
    ensures
        init_session_effect(clear_session_effect(sessions, name), name, subscriptions)[name].queued
            == Seq::<Seq<char>>::empty(),
{
}

} // verus!

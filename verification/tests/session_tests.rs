use tedge_core::session::clear_session_start;
use tedge_core::session::clear_session_step;
use tedge_core::session::init_session_start;
use tedge_core::session::init_session_step;
use tedge_core::session::ConnAckCode;
use tedge_core::session::SessionConfig;
use tedge_core::session::SessionError;
use tedge_core::session::SessionEvent;
use tedge_core::session::SessionState;
use tedge_core::session::SessionStep;

fn config(name: Option<&str>, clean: bool, subscriptions: Vec<&str>) -> SessionConfig {
    SessionConfig {
        session_name: name.map(|n| n.to_string()),
        clean_session: clean,
        subscriptions: subscriptions.into_iter().map(|s| s.to_string()).collect(),
        queue_capacity: 10,
    }
}

#[test]
fn init_session_rejects_clean_session() {
    let c = config(Some("session-a"), true, vec!["te/+/+/+/+/cmd/restart/+"]);
    assert_eq!(init_session_start(&c), Err(SessionError::InvalidSessionConfig));
}

#[test]
fn init_session_rejects_missing_name() {
    let c = config(None, false, vec!["te/+/+/+/+/cmd/restart/+"]);
    assert_eq!(init_session_start(&c), Err(SessionError::InvalidSessionConfig));
}

#[test]
fn clear_session_rejects_missing_name() {
    let c = config(None, true, vec![]);
    assert_eq!(clear_session_start(&c), Err(SessionError::InvalidSessionConfig));
}

#[test]
fn clear_session_ignores_clean_flag_but_forces_it_on() {
    let c = config(Some("session-a"), false, vec![]);
    let plan = clear_session_start(&c).unwrap();
    assert_eq!(plan.session_name, "session-a");
    assert!(plan.clean_session);
}

#[test]
fn init_session_keeps_the_configured_name_and_stays_persistent() {
    let c = config(Some("session-a"), false, vec![]);
    let plan = init_session_start(&c).unwrap();
    assert_eq!(plan.session_name, "session-a");
    assert!(!plan.clean_session);
}

#[test]
fn init_session_dialogue_subscribes_then_finishes() {
    // ConnAck success with filters configured: subscribe and wait.
    let step = init_session_step(
        SessionState::Connecting,
        &SessionEvent::ConnAck(ConnAckCode::Success),
        true,
    );
    assert_eq!(step, SessionStep::Subscribe(SessionState::Subscribing));

    // SubAck ends the dialogue successfully.
    let step = init_session_step(SessionState::Subscribing, &SessionEvent::SubAck, true);
    assert_eq!(step, SessionStep::Finish(Ok(())));
}

#[test]
fn init_session_dialogue_without_subscriptions_finishes_at_once() {
    let step = init_session_step(
        SessionState::Connecting,
        &SessionEvent::ConnAck(ConnAckCode::Success),
        false,
    );
    assert_eq!(step, SessionStep::Finish(Ok(())));
}

#[test]
fn init_session_surfaces_a_refused_connection() {
    let step = init_session_step(
        SessionState::Connecting,
        &SessionEvent::ConnAck(ConnAckCode::BadUserNamePassword),
        true,
    );
    assert_eq!(
        step,
        SessionStep::Finish(Err(SessionError::ConnectionRefused(ConnAckCode::BadUserNamePassword)))
    );
}

#[test]
fn init_session_tolerates_the_refused_success_quirk() {
    let step = init_session_step(
        SessionState::Connecting,
        &SessionEvent::TransportError { refused_success: true },
        true,
    );
    assert_eq!(step, SessionStep::Poll(SessionState::Connecting));
}

#[test]
fn init_session_aborts_without_failing_on_transport_errors() {
    let step = init_session_step(
        SessionState::Connecting,
        &SessionEvent::TransportError { refused_success: false },
        true,
    );
    assert_eq!(step, SessionStep::Finish(Ok(())));
}

#[test]
fn clear_session_dialogue_finishes_on_any_conn_ack() {
    let step = clear_session_step(
        SessionState::Connecting,
        &SessionEvent::ConnAck(ConnAckCode::Success),
    );
    assert_eq!(step, SessionStep::Finish(Ok(())));

    let step = clear_session_step(
        SessionState::Connecting,
        &SessionEvent::ConnAck(ConnAckCode::NotAuthorized),
    );
    assert_eq!(
        step,
        SessionStep::Finish(Err(SessionError::ConnectionRefused(ConnAckCode::NotAuthorized)))
    );
}

/// Running the creation dialogue twice with the same configuration takes
/// the same steps and succeeds both times: nothing observable
/// distinguishes the second run.
#[test]
fn init_session_twice_is_idempotent() {
    let c = config(Some("session-a"), false, vec!["te/+/+/+/+/cmd/restart/+"]);
    let mut outcomes = Vec::new();
    for _ in 0..2 {
        let plan = init_session_start(&c).unwrap();
        assert_eq!(plan.session_name, "session-a");
        let mut state = SessionState::Connecting;
        let events = [SessionEvent::ConnAck(ConnAckCode::Success), SessionEvent::SubAck];
        let mut subscribes = 0;
        let mut outcome = None;
        for event in events.iter() {
            match init_session_step(state, event, true) {
                SessionStep::Poll(s) => state = s,
                SessionStep::Subscribe(s) => {
                    subscribes += 1;
                    state = s;
                }
                SessionStep::Finish(res) => {
                    outcome = Some(res);
                    break;
                }
            }
        }
        outcomes.push((subscribes, outcome));
    }
    assert_eq!(outcomes[0], (1, Some(Ok(()))));
    assert_eq!(outcomes[1], (1, Some(Ok(()))));
}

use streambridge::session::{
    close_reason, find_source, CLOSE_SOURCE_LOST, CLOSE_SOURCE_NOT_FOUND,
};
use streambridge::{RecvOutcome, Session, SessionAction, SessionEvent, SessionPhase, Source};

fn snapshot() -> Vec<Source> {
    vec![
        Source { name: "CAM1".to_string(), url: Some("10.0.0.5:5961".to_string()) },
        Source { name: "CAM2".to_string(), url: None },
        Source { name: "CAM1".to_string(), url: Some("10.0.0.9:5961".to_string()) },
    ]
}

#[test]
fn close_codes_and_reasons() {
    assert_eq!(CLOSE_SOURCE_NOT_FOUND, 4404);
    assert_eq!(CLOSE_SOURCE_LOST, 4410);
    assert_eq!(close_reason(4404), "source not found");
    assert_eq!(close_reason(4410), "source lost");
    assert_eq!(close_reason(1000), "");
    assert_eq!(close_reason(0), "");
}

#[test]
fn find_source_returns_the_first_of_that_name() {
    let sources = snapshot();
    assert_eq!(find_source(&sources, "CAM1"), Some(0));
    assert_eq!(find_source(&sources, "CAM2"), Some(1));
    assert_eq!(find_source(&sources, "NOPE"), None);
    assert_eq!(find_source(&sources, "cam1"), None);
    assert_eq!(find_source(&sources, "CAM1 "), None);
    assert_eq!(find_source(&sources, ""), None);
    assert_eq!(find_source(&Vec::new(), "CAM1"), None);
}

#[test]
fn unknown_source_is_closed_as_not_found() {
    let (mut session, action) = Session::open(&snapshot(), "NOPE");
    assert_eq!(action, SessionAction::Reject { code: 4404 });
    assert!(session.is_done());
    // Nothing that is reported afterwards creates or subscribes.
    for event in [
        SessionEvent::Created { ok: true },
        SessionEvent::Received(RecvOutcome::Frame),
        SessionEvent::Sent { ok: true },
        SessionEvent::Received(RecvOutcome::Closed),
    ] {
        assert_eq!(session.step(event), SessionAction::Finished);
        assert!(session.is_done());
    }
}

#[test]
fn known_source_asks_for_its_receiver() {
    let (session, action) = Session::open(&snapshot(), "CAM2");
    assert_eq!(action, SessionAction::Create { index: 1 });
    assert_eq!(session.phase, SessionPhase::Creating);
    let (_, action) = Session::open(&snapshot(), "CAM1");
    assert_eq!(action, SessionAction::Create { index: 0 });
}

#[test]
fn failed_creation_is_closed_as_not_found() {
    let (mut session, _) = Session::open(&snapshot(), "CAM1");
    assert_eq!(session.step(SessionEvent::Created { ok: false }), SessionAction::Reject { code: 4404 });
    assert!(session.is_done());
}

fn streaming() -> Session {
    let (mut session, _) = Session::open(&snapshot(), "CAM1");
    assert_eq!(session.step(SessionEvent::Created { ok: true }), SessionAction::Subscribe);
    assert_eq!(session.phase, SessionPhase::Receiving);
    session
}

#[test]
fn frames_are_forwarded_one_by_one() {
    let mut session = streaming();
    for _ in 0..250 {
        assert_eq!(session.step(SessionEvent::Received(RecvOutcome::Frame)), SessionAction::Forward);
        assert_eq!(session.phase, SessionPhase::Sending);
        assert_eq!(session.step(SessionEvent::Sent { ok: true }), SessionAction::Receive);
        assert_eq!(session.phase, SessionPhase::Receiving);
    }
}

#[test]
fn lagging_subscriber_stays_connected() {
    let mut session = streaming();
    for skipped in [1u64, 3, u64::MAX] {
        assert_eq!(
            session.step(SessionEvent::Received(RecvOutcome::Lagged(skipped))),
            SessionAction::Receive
        );
        assert_eq!(session.phase, SessionPhase::Receiving);
    }
    assert_eq!(session.step(SessionEvent::Received(RecvOutcome::Frame)), SessionAction::Forward);
}

#[test]
fn lost_source_closes_the_socket() {
    let mut session = streaming();
    assert_eq!(
        session.step(SessionEvent::Received(RecvOutcome::Closed)),
        SessionAction::Detach { close: Some(4410) }
    );
    assert!(session.is_done());
    assert_eq!(close_reason(4410), "source lost");
    assert_eq!(session.step(SessionEvent::Received(RecvOutcome::Frame)), SessionAction::Finished);
}

#[test]
fn peer_gone_ends_the_session_without_a_close_frame() {
    let mut session = streaming();
    session.step(SessionEvent::Received(RecvOutcome::Frame));
    assert_eq!(session.step(SessionEvent::Sent { ok: false }), SessionAction::Detach { close: None });
    assert!(session.is_done());
}

#[test]
fn unexpected_reports_change_nothing() {
    let (mut session, _) = Session::open(&snapshot(), "CAM1");
    assert_eq!(session.step(SessionEvent::Sent { ok: false }), SessionAction::Finished);
    assert_eq!(session.step(SessionEvent::Received(RecvOutcome::Closed)), SessionAction::Finished);
    assert_eq!(session.phase, SessionPhase::Creating);

    let mut session = streaming();
    assert_eq!(session.step(SessionEvent::Created { ok: false }), SessionAction::Receive);
    assert_eq!(session.step(SessionEvent::Sent { ok: false }), SessionAction::Receive);
    assert_eq!(session.phase, SessionPhase::Receiving);
    session.step(SessionEvent::Received(RecvOutcome::Frame));
    assert_eq!(session.step(SessionEvent::Received(RecvOutcome::Closed)), SessionAction::Forward);
    assert_eq!(session.step(SessionEvent::Created { ok: true }), SessionAction::Forward);
    assert_eq!(session.phase, SessionPhase::Sending);
}

#[test]
fn every_session_detaches_as_often_as_it_subscribed() {
    let scripts: Vec<Vec<SessionEvent>> = vec![
        vec![SessionEvent::Created { ok: false }],
        vec![SessionEvent::Created { ok: true }, SessionEvent::Received(RecvOutcome::Closed)],
        vec![
            SessionEvent::Created { ok: true },
            SessionEvent::Received(RecvOutcome::Frame),
            SessionEvent::Sent { ok: true },
            SessionEvent::Received(RecvOutcome::Lagged(2)),
            SessionEvent::Created { ok: true },
            SessionEvent::Received(RecvOutcome::Frame),
            SessionEvent::Sent { ok: false },
            SessionEvent::Sent { ok: false },
            SessionEvent::Created { ok: true },
        ],
    ];
    for script in scripts {
        let (mut session, _) = Session::open(&snapshot(), "CAM2");
        let mut subscribed = 0;
        let mut detached = 0;
        for event in script {
            match session.step(event) {
                SessionAction::Subscribe => subscribed += 1,
                SessionAction::Detach { .. } => detached += 1,
                _ => {}
            }
        }
        assert!(session.is_done());
        assert!(subscribed <= 1);
        assert_eq!(subscribed, detached);
    }
}

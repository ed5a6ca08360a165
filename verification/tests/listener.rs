use sni_proxy::reverse_proxy::{start, ListenerAction, ListenerEvent, ListenerState, StartError};

const EVENTS: [ListenerEvent; 6] = [
    ListenerEvent::CertificateLoaded,
    ListenerEvent::CertificateFailed,
    ListenerEvent::Bound,
    ListenerEvent::BindFailed,
    ListenerEvent::Accepted,
    ListenerEvent::AcceptFailed,
];

#[test]
fn a_listener_loads_binds_and_accepts() {
    let (state, action) = start(ListenerState::Loading, ListenerEvent::CertificateLoaded);
    assert_eq!((state, action), (ListenerState::Binding, ListenerAction::Bind));
    let (state, action) = start(state, ListenerEvent::Bound);
    assert_eq!((state, action), (ListenerState::Accepting, ListenerAction::Accept));
    let (state, action) = start(state, ListenerEvent::Accepted);
    assert_eq!((state, action), (ListenerState::Accepting, ListenerAction::Spawn));
}

#[test]
fn a_certificate_that_cannot_be_loaded_is_fatal() {
    let (state, action) = start(ListenerState::Loading, ListenerEvent::CertificateFailed);
    assert_eq!(state, ListenerState::Stopped { error: StartError::Certificate });
    assert_eq!(action, ListenerAction::Stop { error: StartError::Certificate });
}

#[test]
fn a_socket_that_cannot_be_bound_is_fatal() {
    let (state, action) = start(ListenerState::Binding, ListenerEvent::BindFailed);
    assert_eq!(state, ListenerState::Stopped { error: StartError::Bind });
    assert_eq!(action, ListenerAction::Stop { error: StartError::Bind });
}

#[test]
fn a_failed_accept_is_passed_over() {
    let (state, action) = start(ListenerState::Accepting, ListenerEvent::AcceptFailed);
    assert_eq!(state, ListenerState::Accepting);
    assert_eq!(action, ListenerAction::Accept);
}

#[test]
fn the_listener_goes_on_accepting_whatever_comes() {
    let script = [
        ListenerEvent::Accepted,
        ListenerEvent::AcceptFailed,
        ListenerEvent::AcceptFailed,
        ListenerEvent::Accepted,
        ListenerEvent::Accepted,
        ListenerEvent::AcceptFailed,
    ];
    let mut spawned = 0;
    let mut state = ListenerState::Accepting;
    for event in script {
        let (next, action) = start(state, event);
        assert_eq!(next, ListenerState::Accepting);
        match action {
            ListenerAction::Spawn => spawned += 1,
            ListenerAction::Accept => {}
            other => panic!("{other:?}"),
        }
        state = next;
    }
    assert_eq!(spawned, 3);
}

#[test]
fn a_stopped_listener_stays_stopped() {
    for error in [StartError::Certificate, StartError::Bind, StartError::Unexpected] {
        for event in EVENTS {
            let (state, action) = start(ListenerState::Stopped { error }, event);
            assert_eq!(state, ListenerState::Stopped { error });
            assert_eq!(action, ListenerAction::Stop { error });
        }
    }
}

#[test]
fn a_listener_event_out_of_turn_stops_the_listener() {
    let waited_for: [(ListenerState, [usize; 2]); 3] = [
        (ListenerState::Loading, [0, 1]),
        (ListenerState::Binding, [2, 3]),
        (ListenerState::Accepting, [4, 5]),
    ];
    for (state, fine) in waited_for {
        for (e, event) in EVENTS.into_iter().enumerate() {
            let (next, action) = start(state, event);
            if fine.contains(&e) {
                assert_ne!(next, ListenerState::Stopped { error: StartError::Unexpected });
            } else {
                assert_eq!(next, ListenerState::Stopped { error: StartError::Unexpected });
                assert_eq!(action, ListenerAction::Stop { error: StartError::Unexpected });
            }
        }
    }
}

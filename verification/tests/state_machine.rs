use std::sync::atomic::{AtomicUsize, Ordering};
use std::sync::{Arc, Mutex};

use minisftp::session::SftpSession;
use minisftp::state::{ConnectionObserver, ConnectionState};
use minisftp::state::ConnectionState as CS;
use minisftp::error::Error;

/// Records every notification as a pair of state names.
struct RecordingObserver {
    log: Arc<Mutex<Vec<(String, String)>>>,
}

impl ConnectionObserver for RecordingObserver {
    fn on_state_changed(&self, prev: &ConnectionState, next: &ConnectionState) {
        self.log.lock().unwrap().push((prev.name().to_string(), next.name().to_string()));
    }
}

fn recording() -> (Arc<Mutex<Vec<(String, String)>>>, Box<RecordingObserver>) {
    let log = Arc::new(Mutex::new(Vec::new()));
    (log.clone(), Box::new(RecordingObserver { log }))
}

struct CountingObserver {
    count: Arc<AtomicUsize>,
}

impl ConnectionObserver for CountingObserver {
    fn on_state_changed(&self, _prev: &ConnectionState, _next: &ConnectionState) {
        self.count.fetch_add(1, Ordering::SeqCst);
    }
}

fn counting() -> (Arc<AtomicUsize>, Box<CountingObserver>) {
    let count = Arc::new(AtomicUsize::new(0));
    (count.clone(), Box::new(CountingObserver { count }))
}

#[test]
fn full_handshake_chain_is_accepted() {
    let (_log, observer) = recording();
    let mut session = SftpSession::new(observer);
    let chain = [
        ConnectionState::TcpConnecting,
        ConnectionState::VersionExchange,
        ConnectionState::KeyExchange,
        ConnectionState::Encrypted,
        ConnectionState::Authenticating,
        ConnectionState::Authenticated,
        ConnectionState::ChannelOpening,
        ConnectionState::SftpReady,
        ConnectionState::Disconnecting,
        ConnectionState::Disconnected,
    ];
    for next in chain {
        assert!(session.transition(next).is_ok());
    }
    assert!(matches!(session.state(), ConnectionState::Disconnected));
}

#[test]
fn observer_sees_each_transition_in_order() {
    let (log, observer) = recording();
    {
        let mut s = SftpSession::new(observer);
        s.transition(ConnectionState::TcpConnecting).unwrap();
        s.transition(ConnectionState::VersionExchange).unwrap();
        s.transition(ConnectionState::Disconnecting).unwrap();
    }
    let log = log.lock().unwrap();
    assert_eq!(
        *log,
        vec![
            ("Idle".to_string(), "TcpConnecting".to_string()),
            ("TcpConnecting".to_string(), "VersionExchange".to_string()),
            ("VersionExchange".to_string(), "Disconnecting".to_string()),
        ]
    );
}

#[test]
fn illegal_transition_rejected_without_notification() {
    // Idle -> SftpReady is not an edge: the call fails, the state stays
    // Idle, and the observer hears nothing.
    let (count, observer) = counting();
    let mut session = SftpSession::new(observer);
    let r = session.transition(ConnectionState::SftpReady);
    match r {
        Err(Error::InvalidTransition { from, to }) => {
            assert!(matches!(from, ConnectionState::Idle));
            assert!(matches!(to, ConnectionState::SftpReady));
        },
        _ => panic!("expected InvalidTransition"),
    }
    assert!(matches!(session.state(), ConnectionState::Idle));
    assert_eq!(count.load(Ordering::SeqCst), 0);
}

#[test]
fn skipping_a_phase_is_rejected() {
    let (_count, observer) = counting();
    let mut session = SftpSession::new(observer);
    session.transition(ConnectionState::TcpConnecting).unwrap();
    assert!(session.transition(ConnectionState::KeyExchange).is_err());
    assert!(matches!(session.state(), ConnectionState::TcpConnecting));
}

#[test]
fn any_state_may_disconnect() {
    let (_count, observer) = counting();
    let mut session = SftpSession::new(observer);
    session.transition(ConnectionState::TcpConnecting).unwrap();
    session.transition(ConnectionState::VersionExchange).unwrap();
    session.transition(ConnectionState::KeyExchange).unwrap();
    assert!(session.transition(ConnectionState::Disconnecting).is_ok());
    assert!(session.transition(ConnectionState::Disconnected).is_ok());
}

#[test]
fn auth_failure_records_prior_state() {
    // The observer sequence ends with a transition into Error whose prior
    // state is Authenticating, as a rejected password produces.
    let (log, observer) = recording();
    {
        let mut session = SftpSession::new(observer);
        session.transition(ConnectionState::TcpConnecting).unwrap();
        session.transition(ConnectionState::VersionExchange).unwrap();
        session.transition(ConnectionState::KeyExchange).unwrap();
        session.transition(ConnectionState::Encrypted).unwrap();
        session.transition(ConnectionState::Authenticating).unwrap();
        session.transition_to_error("Authentication failed".to_string());
        match session.state() {
            ConnectionState::Error { state, message } => {
                assert!(matches!(**state, ConnectionState::Authenticating));
                assert_eq!(message, "Authentication failed");
            },
            other => panic!("expected Error state, got {:?}", other),
        }
    }
    let log = log.lock().unwrap();
    let last = log.last().unwrap();
    assert_eq!(last.0, "Authenticating");
    assert_eq!(last.1, "Error");
}

#[test]
fn can_transition_to_enumerates_the_edges() {
    assert!(CS::Idle.can_transition_to(&CS::TcpConnecting));
    assert!(CS::TcpConnecting.can_transition_to(&CS::VersionExchange));
    assert!(CS::VersionExchange.can_transition_to(&CS::KeyExchange));
    assert!(CS::KeyExchange.can_transition_to(&CS::Encrypted));
    assert!(CS::Encrypted.can_transition_to(&CS::Authenticating));
    assert!(CS::Authenticating.can_transition_to(&CS::Authenticated));
    assert!(CS::Authenticated.can_transition_to(&CS::ChannelOpening));
    assert!(CS::ChannelOpening.can_transition_to(&CS::SftpReady));
    assert!(CS::Disconnecting.can_transition_to(&CS::Disconnected));
    assert!(CS::SftpReady.can_transition_to(&CS::Disconnecting));
    assert!(CS::Idle.can_transition_to(&CS::Error {
        state: Box::new(CS::Idle),
        message: "m".to_string(),
    }));
    assert!(!CS::Idle.can_transition_to(&CS::SftpReady));
    assert!(!CS::Idle.can_transition_to(&CS::VersionExchange));
    assert!(!CS::Disconnected.can_transition_to(&CS::Idle));
    assert!(!CS::SftpReady.can_transition_to(&CS::TcpConnecting));
    assert!(!CS::Idle.can_transition_to(&CS::Idle));
}

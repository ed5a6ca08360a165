use sni_proxy::reverse_proxy::{
    ConnectionError, CopyFault, Direction, RelayError, StartError,
};
use sni_proxy::state::Destination;

#[test]
fn relay_errors_name_the_stream_that_failed() {
    let forth = Direction::ClientToBackend;
    let back = Direction::BackendToClient;
    let say = |direction, fault| RelayError { direction, fault }.message();
    assert_eq!(say(forth, CopyFault::Write), "TCP write error");
    assert_eq!(say(back, CopyFault::Write), "TLS write error");
    assert_eq!(say(forth, CopyFault::Read), "TLS read error");
    assert_eq!(say(back, CopyFault::Read), "TCP read error");
    assert_eq!(say(forth, CopyFault::Unexpected), "Relay event out of turn");
    assert_eq!(say(back, CopyFault::Unexpected), "Relay event out of turn");
}

#[test]
fn connection_errors_say_why() {
    assert_eq!(ConnectionError::MissingSni.message(), "No SNI !");
    assert_eq!(
        ConnectionError::NoEndpoint { hostname: "app.example.com".to_string() }.message(),
        "No endpoint for app.example.com"
    );
    assert_eq!(
        ConnectionError::NoEndpoint { hostname: String::new() }.message(),
        "No endpoint for "
    );
    assert_eq!(ConnectionError::Handshake.message(), "TLS handshake failed");
    assert_eq!(
        ConnectionError::Dial { destination: Destination::V4 { addr: 1, port: 2 } }.message(),
        "Backend unreachable"
    );
    assert_eq!(ConnectionError::Unexpected.message(), "Connection event out of turn");
}

#[test]
fn a_relay_fault_keeps_its_words_inside_a_connection_error() {
    let error = RelayError { direction: Direction::ClientToBackend, fault: CopyFault::Write };
    assert_eq!(ConnectionError::Relay { error }.message(), "TCP write error");
    let error = RelayError { direction: Direction::BackendToClient, fault: CopyFault::Read };
    assert_eq!(ConnectionError::Relay { error }.message(), "TCP read error");
}

#[test]
fn start_errors_say_why() {
    assert_eq!(StartError::Certificate.message(), "Cannot load the certificate or the key");
    assert_eq!(StartError::Bind.message(), "Cannot bind the listening address");
    assert_eq!(StartError::Unexpected.message(), "Listener event out of turn");
}

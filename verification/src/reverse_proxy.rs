//! What the proxy decides: when the listener gives up, how a connection
//! moves from handshake to relay, and how bytes move between the two peers.
//!
//! Each of the three is a function from a state and an event to the next
//! state and the next action. A driver owns the sockets: it performs the
//! action and reports the outcome as the next event.

use crate::state::{
    latest, lemma_lookup_follows_latest_update, replay, resolve, Destination, RouteUpdate,
};
use vstd::prelude::*;
use vstd::string::StringExecFns;

verus! {

/// Why the listener gave up.
#[derive(Clone, Copy, Debug, PartialEq, Eq, Structural)]
pub enum StartError {
    /// The certificate chain or the private key could not be loaded, or the
    /// two do not make a server configuration.
    Certificate,
    /// The listening socket could not be bound.
    Bind,
    /// The driver reported an event that the listener was not waiting for.
    Unexpected,
}

impl StartError {
    /// The reason in words.
    pub open spec fn text(self) -> Seq<char> {
        match self {
            StartError::Certificate => "Cannot load the certificate or the key"@,
            StartError::Bind => "Cannot bind the listening address"@,
            StartError::Unexpected => "Listener event out of turn"@,
        }
    }

    /// The reason in words.
    pub fn message(&self) -> (message: String)
        ensures
            message@ == self.text(),
    {
        match self {
            StartError::Certificate => "Cannot load the certificate or the key".to_owned(),
            StartError::Bind => "Cannot bind the listening address".to_owned(),
            StartError::Unexpected => "Listener event out of turn".to_owned(),
        }
    }
}

/// Where the listener stands.
#[derive(Clone, Copy, Debug, PartialEq, Eq)]
pub enum ListenerState {
    /// The certificate and the key are being loaded. This is where a
    /// listener begins.
    Loading,
    /// The listening socket is being bound.
    Binding,
    /// The listener waits for the next connection.
    Accepting,
    /// The listener has given up.
    Stopped { error: StartError },
}

/// What the driver reports to the listener.
#[derive(Clone, Copy, Debug, PartialEq, Eq, Structural)]
pub enum ListenerEvent {
    /// The certificate and the key were loaded and fit together.
    CertificateLoaded,
    /// Loading the certificate or the key failed.
    CertificateFailed,
    /// The listening socket is bound.
    Bound,
    /// Binding the listening socket failed.
    BindFailed,
    /// A client has connected.
    Accepted,
    /// Accepting a connection failed.
    AcceptFailed,
}

/// What the driver has to do next for the listener.
#[derive(Clone, Copy, Debug, PartialEq, Eq)]
pub enum ListenerAction {
    /// Bind the listening socket.
    Bind,
    /// Wait for the next connection.
    Accept,
    /// Hand the connection that was just accepted to a handler that runs on
    /// its own, and wait for the next connection without waiting for it.
    Spawn,
    /// Give up and report `error`: no traffic is served.
    Stop { error: StartError },
}

impl ListenerState {
    /// The state after `event`, and what to do next.
    ///
    /// A failure before the listener accepts is fatal. Once it accepts it goes
    /// on accepting: a connection is handed on, a failed accept is passed
    /// over. An event that the state was not waiting for stops the listener,
    /// and a listener that has stopped stays so.
    pub open spec fn next(self, event: ListenerEvent) -> (ListenerState, ListenerAction) {
        match (self, event) {
            (ListenerState::Loading, ListenerEvent::CertificateLoaded) => (
                ListenerState::Binding,
                ListenerAction::Bind,
            ),
            (ListenerState::Loading, ListenerEvent::CertificateFailed) => (
                ListenerState::Stopped { error: StartError::Certificate },
                ListenerAction::Stop { error: StartError::Certificate },
            ),
            (ListenerState::Binding, ListenerEvent::Bound) => (
                ListenerState::Accepting,
                ListenerAction::Accept,
            ),
            (ListenerState::Binding, ListenerEvent::BindFailed) => (
                ListenerState::Stopped { error: StartError::Bind },
                ListenerAction::Stop { error: StartError::Bind },
            ),
            (ListenerState::Accepting, ListenerEvent::Accepted) => (
                ListenerState::Accepting,
                ListenerAction::Spawn,
            ),
            (ListenerState::Accepting, ListenerEvent::AcceptFailed) => (
                ListenerState::Accepting,
                ListenerAction::Accept,
            ),
            (ListenerState::Stopped { error }, _) => (
                ListenerState::Stopped { error },
                ListenerAction::Stop { error },
            ),
            _ => (
                ListenerState::Stopped { error: StartError::Unexpected },
                ListenerAction::Stop { error: StartError::Unexpected },
            ),
        }
    }

    /// The state after `events`, first to last.
    pub open spec fn run(self, events: Seq<ListenerEvent>) -> ListenerState
        decreases events.len(),
    {
        if events.len() == 0 {
            self
        } else {
            self.run(events.drop_last()).next(events.last()).0
        }
    }
}

/// Takes in what the driver reports to the listener, and says what to do
/// next.
///
/// The driver starts in `ListenerState::Loading` by loading the certificate
/// and the key, and goes on until it is told to stop.
pub fn start(state: ListenerState, event: ListenerEvent) -> (next: (ListenerState, ListenerAction))
    ensures
        next == state.next(event),
        next.1 is Stop <==> next.0 is Stopped,
        state is Accepting && (event is Accepted || event is AcceptFailed) ==> next.0
            is Accepting,
        next.1 is Spawn <==> state is Accepting && event is Accepted,
{
    match (state, event) {
        (ListenerState::Loading, ListenerEvent::CertificateLoaded) => (
            ListenerState::Binding,
            ListenerAction::Bind,
        ),
        (ListenerState::Loading, ListenerEvent::CertificateFailed) => (
            ListenerState::Stopped { error: StartError::Certificate },
            ListenerAction::Stop { error: StartError::Certificate },
        ),
        (ListenerState::Binding, ListenerEvent::Bound) => (
            ListenerState::Accepting,
            ListenerAction::Accept,
        ),
        (ListenerState::Binding, ListenerEvent::BindFailed) => (
            ListenerState::Stopped { error: StartError::Bind },
            ListenerAction::Stop { error: StartError::Bind },
        ),
        (ListenerState::Accepting, ListenerEvent::Accepted) => (
            ListenerState::Accepting,
            ListenerAction::Spawn,
        ),
        (ListenerState::Accepting, ListenerEvent::AcceptFailed) => (
            ListenerState::Accepting,
            ListenerAction::Accept,
        ),
        (ListenerState::Stopped { error }, _) => (
            ListenerState::Stopped { error },
            ListenerAction::Stop { error },
        ),
        _ => (
            ListenerState::Stopped { error: StartError::Unexpected },
            ListenerAction::Stop { error: StartError::Unexpected },
        ),
    }
}

/// No connection stops the listener. Once the listener accepts, it goes on
/// accepting whatever run of connections and failed accepts comes in: what
/// became of one connection has no part in whether the next one is taken.
pub proof fn lemma_listener_keeps_accepting(events: Seq<ListenerEvent>)
    requires
        forall|i: int|
            0 <= i < events.len() ==> events[i] is Accepted || events[i] is AcceptFailed,
    ensures
        ListenerState::Accepting.run(events) is Accepting,
    decreases events.len(),
{
    if events.len() > 0 {
        lemma_listener_keeps_accepting(events.drop_last());
    }
}

/// Why a connection was closed before its relay had run to the end.
#[derive(Debug, PartialEq, Eq)]
pub enum ConnectionError {
    /// The TLS handshake failed.
    Handshake,
    /// The client presented no server name.
    MissingSni,
    /// The routing table has no backend for the server name.
    NoEndpoint { hostname: String },
    /// The backend could not be reached.
    Dial { destination: Destination },
    /// The relay ended with a failure.
    Relay { error: RelayError },
    /// The driver reported an event that the connection was not waiting for.
    Unexpected,
}

/// Where a connection stands. A connection passes through the states in the
/// order in which they stand here, and never goes back.
#[derive(Debug, PartialEq, Eq)]
pub enum ConnectionState {
    /// The listener has handed over the raw stream.
    Accepted,
    /// The TLS handshake is under way.
    Handshaking,
    /// The server name is being looked up in the routing table.
    Resolving { hostname: String },
    /// The backend is being dialled.
    Dialing { destination: Destination },
    /// Bytes are relayed between the client and the backend.
    Relaying,
    /// The connection is over.
    Closed,
}

/// What the driver reports of a connection.
#[derive(Debug, PartialEq, Eq)]
pub enum ConnectionEvent {
    /// The handler has taken up the connection.
    Start,
    /// The handshake is done; `sni` is the server name that the client
    /// presented, if it presented one.
    HandshakeCompleted { sni: Option<String> },
    /// The handshake failed.
    HandshakeFailed,
    /// The routing table was asked: `destination` is what it holds for the
    /// server name.
    Resolved { destination: Option<Destination> },
    /// The backend has taken the connection.
    Connected,
    /// The backend could not be reached.
    ConnectFailed,
    /// The relay is over.
    RelayFinished { result: Result<(), RelayError> },
}

/// What the driver has to do next for a connection.
#[derive(Debug, PartialEq, Eq)]
pub enum ConnectionAction {
    /// Run the TLS handshake and report the server name.
    Handshake,
    /// Look `hostname` up in the routing table.
    Resolve { hostname: String },
    /// Open a connection to `destination`.
    Dial { destination: Destination },
    /// Relay bytes between the client and the backend until both directions
    /// have ended.
    Relay,
    /// Close the connection; `result` says how it went. Nothing is tried
    /// again.
    Close { result: Result<(), ConnectionError> },
}

impl Clone for ConnectionError {
    fn clone(&self) -> (copy: ConnectionError)
        ensures
            copy == *self,
    {
        match self {
            ConnectionError::Handshake => ConnectionError::Handshake,
            ConnectionError::MissingSni => ConnectionError::MissingSni,
            ConnectionError::NoEndpoint { hostname } => ConnectionError::NoEndpoint {
                hostname: hostname.clone(),
            },
            ConnectionError::Dial { destination } => ConnectionError::Dial {
                destination: *destination,
            },
            ConnectionError::Relay { error } => ConnectionError::Relay { error: *error },
            ConnectionError::Unexpected => ConnectionError::Unexpected,
        }
    }
}

impl ConnectionError {
    /// The reason in words.
    pub open spec fn text(self) -> Seq<char> {
        match self {
            ConnectionError::Handshake => "TLS handshake failed"@,
            ConnectionError::MissingSni => "No SNI !"@,
            ConnectionError::NoEndpoint { hostname } => "No endpoint for "@ + hostname@,
            ConnectionError::Dial { .. } => "Backend unreachable"@,
            ConnectionError::Relay { error } => error.text(),
            ConnectionError::Unexpected => "Connection event out of turn"@,
        }
    }

    /// The reason in words.
    pub fn message(&self) -> (message: String)
        ensures
            message@ == self.text(),
    {
        match self {
            ConnectionError::Handshake => "TLS handshake failed".to_owned(),
            ConnectionError::MissingSni => "No SNI !".to_owned(),
            ConnectionError::NoEndpoint { hostname } => "No endpoint for ".to_owned().concat(
                hostname.as_str(),
            ),
            ConnectionError::Dial { destination: _ } => "Backend unreachable".to_owned(),
            ConnectionError::Relay { error } => error.message(),
            ConnectionError::Unexpected => "Connection event out of turn".to_owned(),
        }
    }
}

impl Clone for ConnectionState {
    fn clone(&self) -> (copy: ConnectionState)
        ensures
            copy == *self,
    {
        match self {
            ConnectionState::Accepted => ConnectionState::Accepted,
            ConnectionState::Handshaking => ConnectionState::Handshaking,
            ConnectionState::Resolving { hostname } => ConnectionState::Resolving {
                hostname: hostname.clone(),
            },
            ConnectionState::Dialing { destination } => ConnectionState::Dialing {
                destination: *destination,
            },
            ConnectionState::Relaying => ConnectionState::Relaying,
            ConnectionState::Closed => ConnectionState::Closed,
        }
    }
}

impl ConnectionState {
    /// How far a connection has come: the place of its state in the order of
    /// states.
    pub open spec fn rank(self) -> nat {
        match self {
            ConnectionState::Accepted => 0,
            ConnectionState::Handshaking => 1,
            ConnectionState::Resolving { .. } => 2,
            ConnectionState::Dialing { .. } => 3,
            ConnectionState::Relaying => 4,
            ConnectionState::Closed => 5,
        }
    }

    /// The state after `event`, and what to do next.
    ///
    /// Each state waits for the outcome of its own stage. Where the stage went
    /// well the connection moves to the next state. Where it failed, where
    /// the client named no server, and where the table has no backend for the
    /// name, the connection is closed with the reason. Any other event closes
    /// it as unexpected, as does any event after it was closed.
    pub open spec fn next(self, event: ConnectionEvent) -> (ConnectionState, ConnectionAction) {
        match (self, event) {
            (ConnectionState::Accepted, ConnectionEvent::Start) => (
                ConnectionState::Handshaking,
                ConnectionAction::Handshake,
            ),
            (
                ConnectionState::Handshaking,
                ConnectionEvent::HandshakeCompleted { sni: Some(hostname) },
            ) => (ConnectionState::Resolving { hostname }, ConnectionAction::Resolve { hostname }),
            (ConnectionState::Handshaking, ConnectionEvent::HandshakeCompleted { sni: None }) => (
                ConnectionState::Closed,
                ConnectionAction::Close { result: Err(ConnectionError::MissingSni) },
            ),
            (ConnectionState::Handshaking, ConnectionEvent::HandshakeFailed) => (
                ConnectionState::Closed,
                ConnectionAction::Close { result: Err(ConnectionError::Handshake) },
            ),
            (
                ConnectionState::Resolving { .. },
                ConnectionEvent::Resolved { destination: Some(destination) },
            ) => (ConnectionState::Dialing { destination }, ConnectionAction::Dial { destination }),
            (
                ConnectionState::Resolving { hostname },
                ConnectionEvent::Resolved { destination: None },
            ) => (
                ConnectionState::Closed,
                ConnectionAction::Close { result: Err(ConnectionError::NoEndpoint { hostname }) },
            ),
            (ConnectionState::Dialing { .. }, ConnectionEvent::Connected) => (
                ConnectionState::Relaying,
                ConnectionAction::Relay,
            ),
            (ConnectionState::Dialing { destination }, ConnectionEvent::ConnectFailed) => (
                ConnectionState::Closed,
                ConnectionAction::Close { result: Err(ConnectionError::Dial { destination }) },
            ),
            (ConnectionState::Relaying, ConnectionEvent::RelayFinished { result: Ok(_) }) => (
                ConnectionState::Closed,
                ConnectionAction::Close { result: Ok(()) },
            ),
            (ConnectionState::Relaying, ConnectionEvent::RelayFinished { result: Err(error) }) => (
                ConnectionState::Closed,
                ConnectionAction::Close { result: Err(ConnectionError::Relay { error }) },
            ),
            _ => (
                ConnectionState::Closed,
                ConnectionAction::Close { result: Err(ConnectionError::Unexpected) },
            ),
        }
    }

    /// The state after `events`, first to last.
    pub open spec fn run(self, events: Seq<ConnectionEvent>) -> ConnectionState
        decreases events.len(),
    {
        if events.len() == 0 {
            self
        } else {
            self.run(events.drop_last()).next(events.last()).0
        }
    }
}

/// Takes in what the driver reports of a connection, and says what to do
/// next.
///
/// The driver starts in `ConnectionState::Accepted` with the event `Start`,
/// and is done when it is told to close. It answers `Resolve` with what
/// `get_sni_endpoint` finds, and `Relay` with the `result` of the relay.
///
/// A connection only ever moves forward, so it is closed after five events at
/// the latest. A backend is dialled only where the routing table named it,
/// and the table is asked only for a name that the client presented.
pub fn handle_connection(state: ConnectionState, event: ConnectionEvent) -> (next: (
    ConnectionState,
    ConnectionAction,
))
    ensures
        next == state.next(event),
        next.0.rank() > state.rank() || (state is Closed && next.0 is Closed),
        next.1 is Close <==> next.0 is Closed,
        next.1 matches ConnectionAction::Dial { destination } ==> state is Resolving && event
            == (ConnectionEvent::Resolved { destination: Some(destination) }),
        next.1 matches ConnectionAction::Resolve { hostname } ==> state is Handshaking && event
            == (ConnectionEvent::HandshakeCompleted { sni: Some(hostname) }),
{
    match (state, event) {
        (ConnectionState::Accepted, ConnectionEvent::Start) => (
            ConnectionState::Handshaking,
            ConnectionAction::Handshake,
        ),
        (
            ConnectionState::Handshaking,
            ConnectionEvent::HandshakeCompleted { sni: Some(hostname) },
        ) => {
            let kept = hostname.clone();
            (ConnectionState::Resolving { hostname: kept }, ConnectionAction::Resolve { hostname })
        },
        (ConnectionState::Handshaking, ConnectionEvent::HandshakeCompleted { sni: None }) => (
            ConnectionState::Closed,
            ConnectionAction::Close { result: Err(ConnectionError::MissingSni) },
        ),
        (ConnectionState::Handshaking, ConnectionEvent::HandshakeFailed) => (
            ConnectionState::Closed,
            ConnectionAction::Close { result: Err(ConnectionError::Handshake) },
        ),
        (
            ConnectionState::Resolving { hostname: _ },
            ConnectionEvent::Resolved { destination: Some(destination) },
        ) => (ConnectionState::Dialing { destination }, ConnectionAction::Dial { destination }),
        (
            ConnectionState::Resolving { hostname },
            ConnectionEvent::Resolved { destination: None },
        ) => (
            ConnectionState::Closed,
            ConnectionAction::Close { result: Err(ConnectionError::NoEndpoint { hostname }) },
        ),
        (ConnectionState::Dialing { destination: _ }, ConnectionEvent::Connected) => (
            ConnectionState::Relaying,
            ConnectionAction::Relay,
        ),
        (ConnectionState::Dialing { destination }, ConnectionEvent::ConnectFailed) => (
            ConnectionState::Closed,
            ConnectionAction::Close { result: Err(ConnectionError::Dial { destination }) },
        ),
        (ConnectionState::Relaying, ConnectionEvent::RelayFinished { result: Ok(_) }) => (
            ConnectionState::Closed,
            ConnectionAction::Close { result: Ok(()) },
        ),
        (ConnectionState::Relaying, ConnectionEvent::RelayFinished { result: Err(error) }) => (
            ConnectionState::Closed,
            ConnectionAction::Close { result: Err(ConnectionError::Relay { error }) },
        ),
        _ => (
            ConnectionState::Closed,
            ConnectionAction::Close { result: Err(ConnectionError::Unexpected) },
        ),
    }
}

/// A connection only moves forward. Whatever is reported of it, it never
/// comes back to a state that it has left, and each event takes it at least
/// one state further until it is closed: after five events, counted from the
/// moment it was accepted, it is closed, and it stays closed.
pub proof fn lemma_connection_only_moves_forward(
    state: ConnectionState,
    events: Seq<ConnectionEvent>,
)
    ensures
        state.run(events).rank() >= state.rank(),
        state.run(events).rank() >= state.rank() + events.len() || state.run(events) is Closed,
        events.len() >= 5 ==> state.run(events) is Closed,
        state is Closed ==> state.run(events) is Closed,
    decreases events.len(),
{
    if events.len() > 0 {
        lemma_connection_only_moves_forward(state, events.drop_last());
    }
}

/// A connection goes where the table points when it is asked. After any run
/// of changes to the table, a connection for a hostname is dialled to the
/// destination of the latest put for that hostname, and to no earlier one; it
/// is closed, and nothing is dialled, where the latest change for the
/// hostname was a remove, and where the hostname was never bound.
pub proof fn lemma_connection_follows_table(
    routes: Map<Seq<char>, Destination>,
    updates: Seq<RouteUpdate>,
    hostname: String,
)
    ensures
        ({
            let found = resolve(replay(routes, updates), hostname@);
            let next = (ConnectionState::Resolving { hostname }).next(
                ConnectionEvent::Resolved { destination: found },
            );
            &&& found == latest(updates, hostname@, resolve(routes, hostname@))
            &&& found matches Some(destination) ==> next == (
                ConnectionState::Dialing { destination },
                ConnectionAction::Dial { destination },
            )
            &&& found is None ==> next == (
                ConnectionState::Closed,
                ConnectionAction::Close { result: Err(ConnectionError::NoEndpoint { hostname }) },
            )
        }),
{
    lemma_lookup_follows_latest_update(routes, updates, hostname@);
}

/// How many bytes one read of a relay asks for at most.
pub const BUFFER_SIZE: usize = 1024;

/// One of the two ways bytes flow through a relay.
#[derive(Clone, Copy, Debug, PartialEq, Eq, Structural)]
pub enum Direction {
    /// From the TLS client to the backend.
    ClientToBackend,
    /// From the backend to the TLS client.
    BackendToClient,
}

impl Direction {
    /// The other direction.
    pub open spec fn opposite(self) -> Direction {
        match self {
            Direction::ClientToBackend => Direction::BackendToClient,
            Direction::BackendToClient => Direction::ClientToBackend,
        }
    }
}

/// Why one direction of a relay stopped before its source ended.
#[derive(Clone, Copy, Debug, PartialEq, Eq, Structural)]
pub enum CopyFault {
    /// Reading from the source failed.
    Read,
    /// Writing to the sink failed.
    Write,
    /// The driver reported an event that the direction was not waiting for.
    Unexpected,
}

/// Where one direction of a relay stands.
#[derive(Clone, Copy, Debug, PartialEq, Eq)]
pub enum CopyState {
    /// Nothing is pending: the next thing to do is to read from the source.
    Reading,
    /// The first `len` bytes of the buffer were read and not yet written.
    Writing { len: usize },
    /// The direction has ended: at the end of its source where `fault` is
    /// `None`, early otherwise.
    Stopped { fault: Option<CopyFault> },
}

/// What the driver reports of one direction.
#[derive(Clone, Copy, Debug, PartialEq, Eq)]
pub enum CopyEvent {
    /// A read put `len` bytes at the start of the buffer; none at the end of
    /// the source.
    Read { len: usize },
    /// A read failed.
    ReadFailed,
    /// All pending bytes were written.
    Written,
    /// A write failed.
    WriteFailed,
}

/// What the driver has to do next for one direction.
#[derive(Clone, Copy, Debug, PartialEq, Eq)]
pub enum CopyAction {
    /// Read at most `max` bytes from the source into the start of the buffer.
    Read { max: usize },
    /// Write the first `len` bytes of the buffer to the sink, all of them.
    Write { len: usize },
    /// Leave the streams of this direction alone.
    Stop,
}

impl CopyState {
    /// The state after `event`.
    ///
    /// A read of no byte is the end of the source. A read of some bytes has to
    /// be written before anything else is read. A failure ends the direction,
    /// and so does an event that the state was not waiting for. What has
    /// stopped stays as it is.
    pub open spec fn next(self, event: CopyEvent) -> CopyState {
        match self {
            CopyState::Reading => match event {
                CopyEvent::Read { len } => if len == 0 {
                    CopyState::Stopped { fault: None }
                } else if len <= BUFFER_SIZE {
                    CopyState::Writing { len }
                } else {
                    CopyState::Stopped { fault: Some(CopyFault::Unexpected) }
                },
                CopyEvent::ReadFailed => CopyState::Stopped { fault: Some(CopyFault::Read) },
                _ => CopyState::Stopped { fault: Some(CopyFault::Unexpected) },
            },
            CopyState::Writing { len } => match event {
                CopyEvent::Written => CopyState::Reading,
                CopyEvent::WriteFailed => CopyState::Stopped { fault: Some(CopyFault::Write) },
                _ => CopyState::Stopped { fault: Some(CopyFault::Unexpected) },
            },
            CopyState::Stopped { fault } => CopyState::Stopped { fault },
        }
    }

    /// What the driver has to do in this state.
    pub open spec fn action(self) -> CopyAction {
        match self {
            CopyState::Reading => CopyAction::Read { max: BUFFER_SIZE },
            CopyState::Writing { len } => CopyAction::Write { len },
            CopyState::Stopped { .. } => CopyAction::Stop,
        }
    }

    /// The direction has ended.
    pub open spec fn stopped(self) -> bool {
        self is Stopped
    }
}

/// Where a relay stands: one state for each direction. The two directions
/// share nothing, and neither waits for the other.
#[derive(Clone, Copy, Debug, PartialEq, Eq)]
pub struct RelayState {
    pub client_to_backend: CopyState,
    pub backend_to_client: CopyState,
}

/// The failure that a relay reports: which direction failed, and how.
#[derive(Clone, Copy, Debug, PartialEq, Eq, Structural)]
pub struct RelayError {
    pub direction: Direction,
    pub fault: CopyFault,
}

impl RelayError {
    /// The failure in words. The client's side of a relay is the TLS stream,
    /// the backend's side the TCP stream.
    pub open spec fn text(self) -> Seq<char> {
        match (self.direction, self.fault) {
            (Direction::ClientToBackend, CopyFault::Read) => "TLS read error"@,
            (Direction::ClientToBackend, CopyFault::Write) => "TCP write error"@,
            (Direction::BackendToClient, CopyFault::Read) => "TCP read error"@,
            (Direction::BackendToClient, CopyFault::Write) => "TLS write error"@,
            (_, CopyFault::Unexpected) => "Relay event out of turn"@,
        }
    }

    /// The failure in words.
    pub fn message(&self) -> (message: String)
        ensures
            message@ == self.text(),
    {
        match (self.direction, self.fault) {
            (Direction::ClientToBackend, CopyFault::Read) => "TLS read error".to_owned(),
            (Direction::ClientToBackend, CopyFault::Write) => "TCP write error".to_owned(),
            (Direction::BackendToClient, CopyFault::Read) => "TCP read error".to_owned(),
            (Direction::BackendToClient, CopyFault::Write) => "TLS write error".to_owned(),
            (_, CopyFault::Unexpected) => "Relay event out of turn".to_owned(),
        }
    }
}

impl RelayState {
    /// The state of one direction.
    pub open spec fn lane(self, direction: Direction) -> CopyState {
        match direction {
            Direction::ClientToBackend => self.client_to_backend,
            Direction::BackendToClient => self.backend_to_client,
        }
    }

    /// The relay after `event` came in for `direction`: that direction moves
    /// on, the other one stays as it is.
    pub open spec fn after(self, direction: Direction, event: CopyEvent) -> RelayState {
        match direction {
            Direction::ClientToBackend => RelayState {
                client_to_backend: self.client_to_backend.next(event),
                backend_to_client: self.backend_to_client,
            },
            Direction::BackendToClient => RelayState {
                client_to_backend: self.client_to_backend,
                backend_to_client: self.backend_to_client.next(event),
            },
        }
    }

    /// Both directions have ended, so nothing of the relay is still at work.
    pub open spec fn finished(self) -> bool {
        self.client_to_backend.stopped() && self.backend_to_client.stopped()
    }

    /// What the relay as a whole comes to: nothing while a direction is still
    /// at work; then the fault of the direction from the client, else the
    /// fault of the direction from the backend, else success.
    pub open spec fn outcome(self) -> Option<Result<(), RelayError>> {
        match (self.client_to_backend, self.backend_to_client) {
            (CopyState::Stopped { fault: forth }, CopyState::Stopped { fault: back }) => Some(
                match (forth, back) {
                    (Some(fault), _) => Err(
                        RelayError { direction: Direction::ClientToBackend, fault },
                    ),
                    (None, Some(fault)) => Err(
                        RelayError { direction: Direction::BackendToClient, fault },
                    ),
                    (None, None) => Ok(()),
                },
            ),
            _ => None,
        }
    }

    /// A relay that has moved no byte yet: both directions are about to read.
    pub fn new() -> (relay: RelayState)
        ensures
            relay.client_to_backend == CopyState::Reading,
            relay.backend_to_client == CopyState::Reading,
    {
        RelayState { client_to_backend: CopyState::Reading, backend_to_client: CopyState::Reading }
    }

    /// What the driver has to do next for `direction`. For a relay that has
    /// moved no byte yet, that is a read.
    pub fn pending(&self, direction: Direction) -> (action: CopyAction)
        ensures
            action == self.lane(direction).action(),
    {
        let lane = match direction {
            Direction::ClientToBackend => self.client_to_backend,
            Direction::BackendToClient => self.backend_to_client,
        };
        match lane {
            CopyState::Reading => CopyAction::Read { max: BUFFER_SIZE },
            CopyState::Writing { len } => CopyAction::Write { len },
            CopyState::Stopped { fault: _ } => CopyAction::Stop,
        }
    }

    /// What the relay as a whole has come to, once both directions have
    /// ended; `None` as long as one of them is still at work.
    pub fn result(&self) -> (result: Option<Result<(), RelayError>>)
        ensures
            result == self.outcome(),
            result is Some <==> self.finished(),
    {
        match (self.client_to_backend, self.backend_to_client) {
            (CopyState::Stopped { fault: forth }, CopyState::Stopped { fault: back }) => {
                match (forth, back) {
                    (Some(fault), _) => Some(
                        Err(RelayError { direction: Direction::ClientToBackend, fault }),
                    ),
                    (None, Some(fault)) => Some(
                        Err(RelayError { direction: Direction::BackendToClient, fault }),
                    ),
                    (None, None) => Some(Ok(())),
                }
            },
            _ => None,
        }
    }
}

/// Moves one direction of a copy on by one event.
fn advance(state: CopyState, event: CopyEvent) -> (next: CopyState)
    ensures
        next == state.next(event),
{
    match state {
        CopyState::Reading => match event {
            CopyEvent::Read { len } => {
                if len == 0 {
                    CopyState::Stopped { fault: None }
                } else if len <= BUFFER_SIZE {
                    CopyState::Writing { len }
                } else {
                    CopyState::Stopped { fault: Some(CopyFault::Unexpected) }
                }
            },
            CopyEvent::ReadFailed => CopyState::Stopped { fault: Some(CopyFault::Read) },
            _ => CopyState::Stopped { fault: Some(CopyFault::Unexpected) },
        },
        CopyState::Writing { len: _ } => match event {
            CopyEvent::Written => CopyState::Reading,
            CopyEvent::WriteFailed => CopyState::Stopped { fault: Some(CopyFault::Write) },
            _ => CopyState::Stopped { fault: Some(CopyFault::Unexpected) },
        },
        CopyState::Stopped { fault } => CopyState::Stopped { fault },
    }
}

/// Takes in what the driver reports of one direction of a relay, and says
/// what to do next for that direction.
///
/// The driver starts with `RelayState::new()`, runs the two directions side
/// by side with a buffer of `BUFFER_SIZE` bytes each, and is done when
/// `result` of the state is `Some`.
///
/// An event moves its own direction only. A write is asked for right after a
/// read that brought something, for as many bytes as the read brought, and
/// for no more than the buffer holds. A direction that has stopped stays
/// stopped, and nothing more is asked for it.
pub fn pipe_stream(state: RelayState, direction: Direction, event: CopyEvent) -> (next: (
    RelayState,
    CopyAction,
))
    ensures
        next.0 == state.after(direction, event),
        next.1 == next.0.lane(direction).action(),
        next.0.lane(direction.opposite()) == state.lane(direction.opposite()),
        next.1 matches CopyAction::Write { len } ==> 0 < len <= BUFFER_SIZE && state.lane(
            direction,
        ) is Reading && event == (CopyEvent::Read { len }),
        state.lane(direction).stopped() ==> next.0 == state && next.1 is Stop,
{
    match direction {
        Direction::ClientToBackend => {
            let relay = RelayState {
                client_to_backend: advance(state.client_to_backend, event),
                backend_to_client: state.backend_to_client,
            };
            (relay, relay.pending(direction))
        },
        Direction::BackendToClient => {
            let relay = RelayState {
                client_to_backend: state.client_to_backend,
                backend_to_client: advance(state.backend_to_client, event),
            };
            (relay, relay.pending(direction))
        },
    }
}

/// A relay that is over is at rest. Once the relay as a whole has come to a
/// result, both of its directions have stopped: nothing is asked of the driver
/// for either of them any more, and no event moves the relay again.
pub proof fn lemma_finished_relay_is_at_rest(
    state: RelayState,
    direction: Direction,
    event: CopyEvent,
)
    requires
        state.outcome() is Some,
    ensures
        state.finished(),
        state.lane(direction).action() is Stop,
        state.after(direction, event) == state,
        state.after(direction, event).outcome() == state.outcome(),
{
}

/// What the streams of one direction did in answer to an action, with the
/// bytes themselves.
pub enum Step {
    /// A read brought `chunk`; an empty chunk is the end of the source.
    Read { chunk: Seq<u8> },
    /// A read failed and brought nothing.
    ReadFailed,
    /// The sink took every pending byte.
    Written,
    /// A write failed after the sink had taken the first `sent` pending bytes.
    WriteFailed { sent: nat },
}

impl Step {
    /// What the driver reports of the step.
    pub open spec fn event(self) -> CopyEvent {
        match self {
            Step::Read { chunk } => CopyEvent::Read { len: chunk.len() as usize },
            Step::ReadFailed => CopyEvent::ReadFailed,
            Step::Written => CopyEvent::Written,
            Step::WriteFailed { .. } => CopyEvent::WriteFailed,
        }
    }

    /// The step is something that streams can do when the driver performs
    /// `action`: a read brings no more than it was asked for, and a failed
    /// write has passed on no more than it was given.
    pub open spec fn answers(self, action: CopyAction) -> bool {
        match (action, self) {
            (CopyAction::Read { max }, Step::Read { chunk }) => chunk.len() <= max,
            (CopyAction::Read { .. }, Step::ReadFailed) => true,
            (CopyAction::Write { .. }, Step::Written) => true,
            (CopyAction::Write { len }, Step::WriteFailed { sent }) => sent <= len,
            _ => false,
        }
    }
}

/// One direction of a relay together with the bytes that it moves: what the
/// buffer holds, every byte that was read from the source so far, and every
/// byte that the sink has taken so far, both in the order in which they came.
pub struct Transfer {
    pub state: CopyState,
    pub buffer: Seq<u8>,
    pub taken: Seq<u8>,
    pub given: Seq<u8>,
}

impl Transfer {
    /// A direction that has moved no byte yet.
    pub open spec fn start() -> Transfer {
        Transfer {
            state: CopyState::Reading,
            buffer: Seq::empty(),
            taken: Seq::empty(),
            given: Seq::empty(),
        }
    }

    /// The direction after `step`. A read fills the buffer with what it
    /// brought; a write passes on the pending bytes of the buffer, a failed
    /// one the first of them.
    pub open spec fn after(self, step: Step) -> Transfer {
        let state = self.state.next(step.event());
        match (self.state, step) {
            (CopyState::Reading, Step::Read { chunk }) => Transfer {
                state,
                buffer: chunk,
                taken: self.taken + chunk,
                given: self.given,
            },
            (CopyState::Writing { len }, Step::Written) => Transfer {
                state,
                buffer: self.buffer,
                taken: self.taken,
                given: self.given + self.buffer.take(len as int),
            },
            (CopyState::Writing { .. }, Step::WriteFailed { sent }) => Transfer {
                state,
                buffer: self.buffer,
                taken: self.taken,
                given: self.given + self.buffer.take(sent as int),
            },
            _ => Transfer { state, buffer: self.buffer, taken: self.taken, given: self.given },
        }
    }

    /// The direction after `steps`, first to last.
    pub open spec fn run(self, steps: Seq<Step>) -> Transfer
        decreases steps.len(),
    {
        if steps.len() == 0 {
            self
        } else {
            self.run(steps.drop_last()).after(steps.last())
        }
    }

    /// Every step of `steps` answers the action that was pending when it
    /// happened: the driver did as it was told, and the streams behaved as
    /// streams do.
    pub open spec fn admits(self, steps: Seq<Step>) -> bool
        decreases steps.len(),
    {
        steps.len() == 0 || (self.admits(steps.drop_last()) && steps.last().answers(
            self.run(steps.drop_last()).state.action(),
        ))
    }

    /// Nothing was lost, doubled, reordered or made up: the sink has taken
    /// what the source gave, in the same order, but for the bytes that are
    /// pending in the buffer, and but for the rest of a write that failed.
    pub open spec fn faithful(self) -> bool {
        match self.state {
            CopyState::Reading => self.given == self.taken,
            CopyState::Writing { len } => {
                &&& 0 < len <= BUFFER_SIZE
                &&& len <= self.buffer.len()
                &&& self.given + self.buffer.take(len as int) == self.taken
            },
            CopyState::Stopped { fault: None } => self.given == self.taken,
            CopyState::Stopped { fault: Some(CopyFault::Read) } => self.given == self.taken,
            CopyState::Stopped { fault: Some(_) } => self.given.is_prefix_of(self.taken),
        }
    }
}

/// A relay passes on what it reads. However the streams of a direction
/// behave, the bytes that the sink has taken are the first of the bytes that
/// the source gave, in their order. Whenever the direction is about to read,
/// and when it has stopped at the end of its source or at a failed read, the
/// sink has taken all of them; while a write is pending, all but the pending
/// bytes of the buffer.
pub proof fn lemma_relay_is_faithful(steps: Seq<Step>)
    requires
        Transfer::start().admits(steps),
    ensures
        Transfer::start().run(steps).faithful(),
        Transfer::start().run(steps).given.is_prefix_of(Transfer::start().run(steps).taken),
    decreases steps.len(),
{
    if steps.len() > 0 {
        let before = Transfer::start().run(steps.drop_last());
        let step = steps.last();
        let after = before.after(step);
        lemma_relay_is_faithful(steps.drop_last());
        match (before.state, step) {
            (CopyState::Reading, Step::Read { chunk }) => {
                if chunk.len() > 0 {
                    assert(chunk.take(chunk.len() as int) == chunk);
                } else {
                    assert(before.taken + chunk == before.taken);
                }
            },
            (CopyState::Writing { len }, Step::WriteFailed { sent }) => {
                let whole = before.buffer.take(len as int);
                let part = before.buffer.take(sent as int);
                assert(part == whole.take(sent as int));
                assert(after.given == (before.given + whole).take((before.given.len() + sent) as int));
            },
            _ => {},
        }
    }
}

} // verus!

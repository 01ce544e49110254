//! The decisions of the connection server. The caller performs each action
//! on sockets and files and reports what came of it as an event; the
//! functions here say what follows.

use crate::config::Config;
use crate::text::{decimal, decimal_text};
use vstd::prelude::*;
use vstd::string::*;

verus! {

/// Where the listening socket stands.
#[derive(Clone, Copy, Debug, PartialEq, Eq, Structural)]
pub enum ServerState {
    /// The listener is being bound.
    Binding,
    /// TLS is wanted and the certificates are being loaded.
    LoadingCertificates,
    /// The private key is being loaded.
    LoadingKey,
    /// The TLS acceptor is being built.
    BuildingAcceptor,
    /// Connections are accepted, behind TLS if `secure`.
    Accepting { secure: bool },
    /// Startup failed; nothing is served.
    Stopped,
}

/// What came of the last action.
pub enum ServerEvent {
    Bound,
    BindFailed(String),
    CertificatesLoaded,
    CertificatesFailed(String),
    KeyLoaded,
    KeyFailed(String),
    AcceptorBuilt,
    AcceptorFailed(String),
    Accepted,
    AcceptFailed(String),
}

/// What the caller does next.
pub enum ServerAction {
    /// Bind a listener at this address and port.
    Bind { ip: String, port: u16 },
    /// Load the certificate chain from this file.
    LoadCertificates { path: String },
    /// Load the private key from this file.
    LoadKey { path: String },
    /// Build the TLS acceptor from the loaded material, without client
    /// authentication, offering `alpn_protocols()`.
    BuildAcceptor,
    /// Wait for the next connection.
    Accept,
    /// Serve the accepted connection as a task of its own, behind TLS if
    /// `secure`, and wait for the next connection.
    Serve { secure: bool },
    /// Return without serving.
    Stop,
}

/// How grave a log line is.
#[derive(Clone, Copy, Debug, PartialEq, Eq, Structural)]
pub enum Level {
    Info,
    Error,
}

/// One line for the log.
pub struct LogLine {
    pub level: Level,
    pub message: String,
}

/// The outcome of one step: the new state, what to log, and what to do.
pub struct Step {
    pub state: ServerState,
    pub log: Option<LogLine>,
    pub action: ServerAction,
}

/// An event as a plain value.
pub enum EventView {
    Bound,
    BindFailed(Seq<char>),
    CertificatesLoaded,
    CertificatesFailed(Seq<char>),
    KeyLoaded,
    KeyFailed(Seq<char>),
    AcceptorBuilt,
    AcceptorFailed(Seq<char>),
    Accepted,
    AcceptFailed(Seq<char>),
}

/// An action as a plain value.
pub enum ActionView {
    Bind { ip: Seq<char>, port: u16 },
    LoadCertificates { path: Seq<char> },
    LoadKey { path: Seq<char> },
    BuildAcceptor,
    Accept,
    Serve { secure: bool },
    Stop,
}

/// A step as a plain value.
pub struct StepView {
    pub state: ServerState,
    pub log: Option<(Level, Seq<char>)>,
    pub action: ActionView,
}

/// What a configuration says of the listener, as plain values.
pub struct Plan {
    pub ip: Seq<char>,
    pub port: u16,
    /// Whether a TLS block is present and switched on.
    pub secure: bool,
    pub cert_path: Seq<char>,
    pub key_path: Seq<char>,
}

impl View for ServerEvent {
    type V = EventView;

    open spec fn view(&self) -> EventView {
        match self {
            ServerEvent::Bound => EventView::Bound,
            ServerEvent::BindFailed(cause) => EventView::BindFailed(cause@),
            ServerEvent::CertificatesLoaded => EventView::CertificatesLoaded,
            ServerEvent::CertificatesFailed(cause) => EventView::CertificatesFailed(cause@),
            ServerEvent::KeyLoaded => EventView::KeyLoaded,
            ServerEvent::KeyFailed(cause) => EventView::KeyFailed(cause@),
            ServerEvent::AcceptorBuilt => EventView::AcceptorBuilt,
            ServerEvent::AcceptorFailed(cause) => EventView::AcceptorFailed(cause@),
            ServerEvent::Accepted => EventView::Accepted,
            ServerEvent::AcceptFailed(cause) => EventView::AcceptFailed(cause@),
        }
    }
}

impl View for ServerAction {
    type V = ActionView;

    open spec fn view(&self) -> ActionView {
        match self {
            ServerAction::Bind { ip, port } => ActionView::Bind { ip: ip@, port: *port },
            ServerAction::LoadCertificates { path } => ActionView::LoadCertificates { path: path@ },
            ServerAction::LoadKey { path } => ActionView::LoadKey { path: path@ },
            ServerAction::BuildAcceptor => ActionView::BuildAcceptor,
            ServerAction::Accept => ActionView::Accept,
            ServerAction::Serve { secure } => ActionView::Serve { secure: *secure },
            ServerAction::Stop => ActionView::Stop,
        }
    }
}

impl View for Step {
    type V = StepView;

    open spec fn view(&self) -> StepView {
        StepView {
            state: self.state,
            log: match self.log {
                Some(line) => Some((line.level, line.message@)),
                None => None,
            },
            action: self.action@,
        }
    }
}

impl View for Config {
    type V = Plan;

    open spec fn view(&self) -> Plan {
        match self.ssl {
            Some(ssl) => Plan {
                ip: self.server.ip@,
                port: self.server.port,
                secure: ssl.tls,
                cert_path: ssl.cert_path@,
                key_path: ssl.key_path@,
            },
            None => Plan {
                ip: self.server.ip@,
                port: self.server.port,
                secure: false,
                cert_path: Seq::empty(),
                key_path: Seq::empty(),
            },
        }
    }
}

/// The address that the listener is bound to, as it is logged.
pub open spec fn address(plan: Plan) -> Seq<char> {
    plan.ip + ":"@ + decimal(plan.port as nat)
}

/// The step that stops the server with an error line.
pub open spec fn stopped(message: Seq<char>) -> StepView {
    StepView {
        state: ServerState::Stopped,
        log: Some((Level::Error, message)),
        action: ActionView::Stop,
    }
}

/// The step that starts accepting connections.
pub open spec fn listening(plan: Plan) -> StepView {
    StepView {
        state: ServerState::Accepting { secure: plan.secure },
        log: Some((Level::Info, "Server listening on "@ + address(plan))),
        action: ActionView::Accept,
    }
}

/// The action that a state waits for the outcome of.
pub open spec fn pending(plan: Plan, state: ServerState) -> ActionView {
    match state {
        ServerState::Binding => ActionView::Bind { ip: plan.ip, port: plan.port },
        ServerState::LoadingCertificates => ActionView::LoadCertificates { path: plan.cert_path },
        ServerState::LoadingKey => ActionView::LoadKey { path: plan.key_path },
        ServerState::BuildingAcceptor => ActionView::BuildAcceptor,
        ServerState::Accepting { secure } => ActionView::Accept,
        ServerState::Stopped => ActionView::Stop,
    }
}

/// The first step: bind the listener.
pub open spec fn first_step(plan: Plan) -> StepView {
    StepView {
        state: ServerState::Binding,
        log: None,
        action: ActionView::Bind { ip: plan.ip, port: plan.port },
    }
}

/// The step that follows an event in a state. Startup runs from binding
/// through the TLS material, where TLS is wanted, to accepting; any failure
/// on the way stops the server. Once connections are accepted, a failed
/// accept is logged and the next connection awaited. An event that does not
/// belong to the state changes nothing.
pub open spec fn next_step(plan: Plan, state: ServerState, event: EventView) -> StepView {
    match (state, event) {
        (ServerState::Binding, EventView::Bound) => if plan.secure {
            StepView {
                state: ServerState::LoadingCertificates,
                log: None,
                action: ActionView::LoadCertificates { path: plan.cert_path },
            }
        } else {
            listening(plan)
        },
        (ServerState::Binding, EventView::BindFailed(cause)) => stopped(
            "Failed to bind to address "@ + address(plan) + ": "@ + cause,
        ),
        (ServerState::LoadingCertificates, EventView::CertificatesLoaded) => StepView {
            state: ServerState::LoadingKey,
            log: None,
            action: ActionView::LoadKey { path: plan.key_path },
        },
        (ServerState::LoadingCertificates, EventView::CertificatesFailed(cause)) => stopped(
            "Failed to load certificates: "@ + cause,
        ),
        (ServerState::LoadingKey, EventView::KeyLoaded) => StepView {
            state: ServerState::BuildingAcceptor,
            log: None,
            action: ActionView::BuildAcceptor,
        },
        (ServerState::LoadingKey, EventView::KeyFailed(cause)) => stopped(
            "Failed to load private key: "@ + cause,
        ),
        (ServerState::BuildingAcceptor, EventView::AcceptorBuilt) => listening(plan),
        (ServerState::BuildingAcceptor, EventView::AcceptorFailed(cause)) => stopped(
            "Failed to create rustls config: "@ + cause,
        ),
        (ServerState::Accepting { secure }, EventView::Accepted) => StepView {
            state,
            log: None,
            action: ActionView::Serve { secure },
        },
        (ServerState::Accepting { secure }, EventView::AcceptFailed(cause)) => StepView {
            state,
            log: Some((Level::Error, "Failed to accept connection: "@ + cause)),
            action: ActionView::Accept,
        },
        _ => StepView { state, log: None, action: pending(plan, state) },
    }
}

/// The protocols that the TLS acceptor offers, in order of preference: `h2`,
/// then `http/1.1`.
pub open spec fn alpn() -> Seq<Seq<u8>> {
    seq![seq![104u8, 50u8], seq![104u8, 116u8, 116u8, 112u8, 47u8, 49u8, 46u8, 49u8]]
}

/// The protocols that the TLS acceptor offers.
pub fn alpn_protocols() -> (protocols: Vec<Vec<u8>>)
    ensures
        protocols.deep_view() == alpn(),
{
    let mut h2: Vec<u8> = Vec::new();
    h2.push(104u8);
    h2.push(50u8);
    let mut http1: Vec<u8> = Vec::new();
    http1.push(104u8);
    http1.push(116u8);
    http1.push(116u8);
    http1.push(112u8);
    http1.push(47u8);
    http1.push(49u8);
    http1.push(46u8);
    http1.push(49u8);
    let mut protocols: Vec<Vec<u8>> = Vec::new();
    protocols.push(h2);
    protocols.push(http1);
    assert(protocols.deep_view()[0] =~= alpn()[0]);
    assert(protocols.deep_view()[1] =~= alpn()[1]);
    protocols
}

/// The text of the listener's address.
fn address_text(config: &Config) -> (text: String)
    ensures
        text@ == address(config@),
{
    config.server.ip.clone().concat(":").concat(decimal_text(config.server.port as usize).as_str())
}

/// The step that stops the server with an error line made of `prefix` and
/// the cause.
fn stop_with(prefix: &str, cause: &str) -> (step: Step)
    ensures
        step@ == stopped(prefix@ + cause@),
{
    Step {
        state: ServerState::Stopped,
        log: Some(LogLine { level: Level::Error, message: String::from_str(prefix).concat(cause) }),
        action: ServerAction::Stop,
    }
}

/// The step that starts accepting connections.
fn listen(config: &Config) -> (step: Step)
    ensures
        step@ == listening(config@),
{
    let secure = match &config.ssl {
        Some(ssl) => ssl.tls,
        None => false,
    };
    Step {
        state: ServerState::Accepting { secure },
        log: Some(
            LogLine {
                level: Level::Info,
                message: String::from_str("Server listening on ").concat(
                    address_text(config).as_str(),
                ),
            },
        ),
        action: ServerAction::Accept,
    }
}

/// The action that a state waits for the outcome of.
fn pending_action(config: &Config, state: ServerState) -> (action: ServerAction)
    ensures
        action@ == pending(config@, state),
{
    match state {
        ServerState::Binding => ServerAction::Bind {
            ip: config.server.ip.clone(),
            port: config.server.port,
        },
        ServerState::LoadingCertificates => ServerAction::LoadCertificates {
            path: match &config.ssl {
                Some(ssl) => ssl.cert_path.clone(),
                None => String::new(),
            },
        },
        ServerState::LoadingKey => ServerAction::LoadKey {
            path: match &config.ssl {
                Some(ssl) => ssl.key_path.clone(),
                None => String::new(),
            },
        },
        ServerState::BuildingAcceptor => ServerAction::BuildAcceptor,
        ServerState::Accepting { secure } => ServerAction::Accept,
        ServerState::Stopped => ServerAction::Stop,
    }
}

/// The first step of a server: bind the listener at the configured address
/// and port.
pub fn start(config: &Config) -> (step: Step)
    ensures
        step@ == first_step(config@),
{
    Step {
        state: ServerState::Binding,
        log: None,
        action: ServerAction::Bind { ip: config.server.ip.clone(), port: config.server.port },
    }
}

/// The step that follows `event` in `state`.
pub fn advance(config: &Config, state: ServerState, event: ServerEvent) -> (step: Step)
    ensures
        step@ == next_step(config@, state, event@),
{
    let secure = match &config.ssl {
        Some(ssl) => ssl.tls,
        None => false,
    };
    match (state, event) {
        (ServerState::Binding, ServerEvent::Bound) => {
            if secure {
                Step {
                    state: ServerState::LoadingCertificates,
                    log: None,
                    action: pending_action(config, ServerState::LoadingCertificates),
                }
            } else {
                listen(config)
            }
        },
        (ServerState::Binding, ServerEvent::BindFailed(cause)) => {
            let prefix = String::from_str("Failed to bind to address ").concat(
                address_text(config).as_str(),
            ).concat(": ");
            stop_with(prefix.as_str(), cause.as_str())
        },
        (ServerState::LoadingCertificates, ServerEvent::CertificatesLoaded) => Step {
            state: ServerState::LoadingKey,
            log: None,
            action: pending_action(config, ServerState::LoadingKey),
        },
        (ServerState::LoadingCertificates, ServerEvent::CertificatesFailed(cause)) => stop_with(
            "Failed to load certificates: ",
            cause.as_str(),
        ),
        (ServerState::LoadingKey, ServerEvent::KeyLoaded) => Step {
            state: ServerState::BuildingAcceptor,
            log: None,
            action: ServerAction::BuildAcceptor,
        },
        (ServerState::LoadingKey, ServerEvent::KeyFailed(cause)) => stop_with(
            "Failed to load private key: ",
            cause.as_str(),
        ),
        (ServerState::BuildingAcceptor, ServerEvent::AcceptorBuilt) => listen(config),
        (ServerState::BuildingAcceptor, ServerEvent::AcceptorFailed(cause)) => stop_with(
            "Failed to create rustls config: ",
            cause.as_str(),
        ),
        (ServerState::Accepting { secure }, ServerEvent::Accepted) => Step {
            state,
            log: None,
            action: ServerAction::Serve { secure },
        },
        (ServerState::Accepting { secure }, ServerEvent::AcceptFailed(cause)) => Step {
            state,
            log: Some(
                LogLine {
                    level: Level::Error,
                    message: String::from_str("Failed to accept connection: ").concat(
                        cause.as_str(),
                    ),
                },
            ),
            action: ServerAction::Accept,
        },
        _ => Step { state, log: None, action: pending_action(config, state) },
    }
}

/// The state of a server after a run of events, from the first step on.
pub open spec fn state_after(plan: Plan, events: Seq<EventView>) -> ServerState
    decreases events.len(),
{
    if events.len() == 0 {
        ServerState::Binding
    } else {
        next_step(plan, state_after(plan, events.drop_last()), events.last()).state
    }
}

/// What has happened before a state is reached: the listener is bound before
/// anything else is done, and where TLS is wanted each part of the TLS
/// material is ready before the next is asked for.
pub open spec fn prepared(plan: Plan, state: ServerState, events: Seq<EventView>) -> bool {
    match state {
        ServerState::Binding => true,
        ServerState::LoadingCertificates => plan.secure && events.contains(EventView::Bound),
        ServerState::LoadingKey => {
            &&& plan.secure
            &&& events.contains(EventView::Bound)
            &&& events.contains(EventView::CertificatesLoaded)
        },
        ServerState::BuildingAcceptor => {
            &&& plan.secure
            &&& events.contains(EventView::Bound)
            &&& events.contains(EventView::CertificatesLoaded)
            &&& events.contains(EventView::KeyLoaded)
        },
        ServerState::Accepting { secure } => {
            &&& secure == plan.secure
            &&& events.contains(EventView::Bound)
            &&& plan.secure ==> {
                &&& events.contains(EventView::CertificatesLoaded)
                &&& events.contains(EventView::KeyLoaded)
                &&& events.contains(EventView::AcceptorBuilt)
            }
        },
        ServerState::Stopped => true,
    }
}

/// Whatever the events, a server accepts connections only when its listener
/// is bound and, where TLS is wanted, the certificates and the key are loaded
/// and the acceptor is built; it then serves behind TLS exactly if TLS is
/// wanted.
pub proof fn lemma_serves_only_when_ready(plan: Plan, events: Seq<EventView>)
    ensures
        prepared(plan, state_after(plan, events), events),
    decreases events.len(),
{
    if events.len() > 0 {
        let before = events.drop_last();
        lemma_serves_only_when_ready(plan, before);
        assert forall|e: EventView| before.contains(e) implies events.contains(e) by {
            let k = choose|k: int| 0 <= k < before.len() && before[k] == e;
            assert(events[k] == e);
        }
    }
}

/// A server that has stopped stays stopped and asks for nothing more.
pub proof fn lemma_stopped_is_final(plan: Plan, event: EventView)
    ensures
        next_step(plan, ServerState::Stopped, event).state == ServerState::Stopped,
        next_step(plan, ServerState::Stopped, event).action == ActionView::Stop,
{
}

/// Every failure during startup stops the server, with an error line.
pub proof fn lemma_startup_failures_stop(plan: Plan, cause: Seq<char>)
    ensures
        next_step(plan, ServerState::Binding, EventView::BindFailed(cause)).state
            == ServerState::Stopped,
        next_step(
            plan,
            ServerState::LoadingCertificates,
            EventView::CertificatesFailed(cause),
        ).state == ServerState::Stopped,
        next_step(plan, ServerState::LoadingKey, EventView::KeyFailed(cause)).state
            == ServerState::Stopped,
        next_step(plan, ServerState::BuildingAcceptor, EventView::AcceptorFailed(cause)).state
            == ServerState::Stopped,
{
}

/// Once connections are accepted, no event ends that: a failed accept is
/// logged and the next connection awaited.
pub proof fn lemma_accepting_goes_on(plan: Plan, secure: bool, event: EventView)
    ensures
        next_step(plan, ServerState::Accepting { secure }, event).state == (ServerState::Accepting {
            secure,
        }),
        next_step(plan, ServerState::Accepting { secure }, event).action != ActionView::Stop,
{
}

/// Where one connection stands.
#[derive(Clone, Copy, Debug, PartialEq, Eq, Structural)]
pub enum ConnectionState {
    /// The TLS handshake is under way.
    Handshaking,
    /// Requests are read, dispatched and answered.
    Serving,
    /// The connection is done.
    Closed,
}

/// What happened on a connection.
pub enum ConnectionEvent {
    HandshakeDone,
    HandshakeFailed,
    /// The peer is done and every response is written.
    Finished,
    /// Reading or writing failed.
    Failed(String),
}

/// A connection event as a plain value.
pub enum ConnectionEventView {
    HandshakeDone,
    HandshakeFailed,
    Finished,
    Failed(Seq<char>),
}

impl View for ConnectionEvent {
    type V = ConnectionEventView;

    open spec fn view(&self) -> ConnectionEventView {
        match self {
            ConnectionEvent::HandshakeDone => ConnectionEventView::HandshakeDone,
            ConnectionEvent::HandshakeFailed => ConnectionEventView::HandshakeFailed,
            ConnectionEvent::Finished => ConnectionEventView::Finished,
            ConnectionEvent::Failed(cause) => ConnectionEventView::Failed(cause@),
        }
    }
}

/// The state in which a connection starts: with the handshake behind TLS,
/// with serving otherwise.
pub open spec fn opened(secure: bool) -> ConnectionState {
    if secure {
        ConnectionState::Handshaking
    } else {
        ConnectionState::Serving
    }
}

/// The state of a connection after an event, and the line to log. A failed
/// handshake and a failure while serving close the connection with an error
/// line; an event that does not belong to the state changes nothing.
pub open spec fn connection_next(state: ConnectionState, event: ConnectionEventView) -> (
    ConnectionState,
    Option<(Level, Seq<char>)>,
) {
    match (state, event) {
        (ConnectionState::Handshaking, ConnectionEventView::HandshakeDone) => (
            ConnectionState::Serving,
            None,
        ),
        (ConnectionState::Handshaking, ConnectionEventView::HandshakeFailed) => (
            ConnectionState::Closed,
            Some((Level::Error, "Error during TLS handshake"@)),
        ),
        (ConnectionState::Serving, ConnectionEventView::Finished) => (ConnectionState::Closed, None),
        (ConnectionState::Serving, ConnectionEventView::Failed(cause)) => (
            ConnectionState::Closed,
            Some((Level::Error, "Error serving connection: "@ + cause)),
        ),
        _ => (state, None),
    }
}

/// The state in which a connection starts.
pub fn open_connection(secure: bool) -> (state: ConnectionState)
    ensures
        state == opened(secure),
{
    if secure {
        ConnectionState::Handshaking
    } else {
        ConnectionState::Serving
    }
}

/// The state of a connection after `event`, and the line to log.
pub fn connection_step(state: ConnectionState, event: ConnectionEvent) -> (out: (
    ConnectionState,
    Option<LogLine>,
))
    ensures
        out.0 == connection_next(state, event@).0,
        match out.1 {
            Some(line) => connection_next(state, event@).1 == Some((line.level, line.message@)),
            None => connection_next(state, event@).1 is None,
        },
{
    match (state, event) {
        (ConnectionState::Handshaking, ConnectionEvent::HandshakeDone) => (
            ConnectionState::Serving,
            None,
        ),
        (ConnectionState::Handshaking, ConnectionEvent::HandshakeFailed) => (
            ConnectionState::Closed,
            Some(
                LogLine {
                    level: Level::Error,
                    message: String::from_str("Error during TLS handshake"),
                },
            ),
        ),
        (ConnectionState::Serving, ConnectionEvent::Finished) => (ConnectionState::Closed, None),
        (ConnectionState::Serving, ConnectionEvent::Failed(cause)) => (
            ConnectionState::Closed,
            Some(
                LogLine {
                    level: Level::Error,
                    message: String::from_str("Error serving connection: ").concat(cause.as_str()),
                },
            ),
        ),
        _ => (state, None),
    }
}

/// A connection is closed by its own events alone, and a closed connection
/// stays closed.
pub proof fn lemma_closed_is_final(event: ConnectionEventView)
    ensures
        connection_next(ConnectionState::Closed, event).0 == ConnectionState::Closed,
        connection_next(ConnectionState::Closed, event).1 is None,
{
}

} // verus!

use maden::server::{
    advance, alpn_protocols, connection_step, open_connection, start, ConnectionEvent,
    ConnectionState, Level, ServerAction, ServerEvent, ServerState, Step,
};
use maden::{Config, Database, Server, Ssl};

fn config(port: u16, ssl: Option<(bool, &str, &str)>) -> Config {
    Config {
        server: Server { ip: "127.0.0.1".to_string(), port },
        ssl: ssl.map(|(tls, cert, key)| Ssl {
            tls,
            cert_path: cert.to_string(),
            key_path: key.to_string(),
        }),
        database: Database {
            ip: "127.0.0.1".to_string(),
            port: 5432,
            user: "u".to_string(),
            password: "p".to_string(),
            database: "d".to_string(),
        },
    }
}

fn log(step: &Step) -> Option<(Level, &str)> {
    step.log.as_ref().map(|line| (line.level, line.message.as_str()))
}

fn action(step: &Step) -> String {
    match &step.action {
        ServerAction::Bind { ip, port } => format!("bind {} {}", ip, port),
        ServerAction::LoadCertificates { path } => format!("certificates {}", path),
        ServerAction::LoadKey { path } => format!("key {}", path),
        ServerAction::BuildAcceptor => "acceptor".to_string(),
        ServerAction::Accept => "accept".to_string(),
        ServerAction::Serve { secure } => format!("serve {}", secure),
        ServerAction::Stop => "stop".to_string(),
    }
}

#[test]
fn a_server_starts_by_binding() {
    let step = start(&config(8080, None));
    assert_eq!(step.state, ServerState::Binding);
    assert_eq!(action(&step), "bind 127.0.0.1 8080");
    assert_eq!(log(&step), None);
}

#[test]
fn without_tls_a_bound_server_accepts() {
    for cfg in [config(8080, None), config(8080, Some((false, "c.pem", "k.pem")))] {
        let step = advance(&cfg, ServerState::Binding, ServerEvent::Bound);
        assert_eq!(step.state, ServerState::Accepting { secure: false });
        assert_eq!(action(&step), "accept");
        assert_eq!(log(&step), Some((Level::Info, "Server listening on 127.0.0.1:8080")));
    }
}

#[test]
fn with_tls_the_material_is_loaded_in_order() {
    let cfg = config(443, Some((true, "certs/server.pem", "certs/server.key")));
    let step = advance(&cfg, ServerState::Binding, ServerEvent::Bound);
    assert_eq!(step.state, ServerState::LoadingCertificates);
    assert_eq!(action(&step), "certificates certs/server.pem");
    assert_eq!(log(&step), None);
    let step = advance(&cfg, step.state, ServerEvent::CertificatesLoaded);
    assert_eq!(step.state, ServerState::LoadingKey);
    assert_eq!(action(&step), "key certs/server.key");
    let step = advance(&cfg, step.state, ServerEvent::KeyLoaded);
    assert_eq!(step.state, ServerState::BuildingAcceptor);
    assert_eq!(action(&step), "acceptor");
    let step = advance(&cfg, step.state, ServerEvent::AcceptorBuilt);
    assert_eq!(step.state, ServerState::Accepting { secure: true });
    assert_eq!(action(&step), "accept");
    assert_eq!(log(&step), Some((Level::Info, "Server listening on 127.0.0.1:443")));
}

#[test]
fn a_failed_bind_stops_the_server() {
    let step = advance(
        &config(80, None),
        ServerState::Binding,
        ServerEvent::BindFailed("Permission denied (os error 13)".to_string()),
    );
    assert_eq!(step.state, ServerState::Stopped);
    assert_eq!(action(&step), "stop");
    assert_eq!(
        log(&step),
        Some((Level::Error, "Failed to bind to address 127.0.0.1:80: Permission denied (os error 13)"))
    );
}

#[test]
fn failed_tls_material_stops_the_server() {
    let cfg = config(443, Some((true, "c.pem", "k.pem")));
    let step = advance(
        &cfg,
        ServerState::LoadingCertificates,
        ServerEvent::CertificatesFailed("No such file".to_string()),
    );
    assert_eq!(step.state, ServerState::Stopped);
    assert_eq!(action(&step), "stop");
    assert_eq!(log(&step), Some((Level::Error, "Failed to load certificates: No such file")));
    let step = advance(&cfg, ServerState::LoadingKey, ServerEvent::KeyFailed("invalid key".to_string()));
    assert_eq!(step.state, ServerState::Stopped);
    assert_eq!(log(&step), Some((Level::Error, "Failed to load private key: invalid key")));
    let step = advance(
        &cfg,
        ServerState::BuildingAcceptor,
        ServerEvent::AcceptorFailed("key mismatch".to_string()),
    );
    assert_eq!(step.state, ServerState::Stopped);
    assert_eq!(log(&step), Some((Level::Error, "Failed to create rustls config: key mismatch")));
}

#[test]
fn an_accepted_connection_is_served_and_the_next_awaited() {
    for secure in [false, true] {
        let cfg = config(8080, Some((secure, "c.pem", "k.pem")));
        let step = advance(&cfg, ServerState::Accepting { secure }, ServerEvent::Accepted);
        assert_eq!(step.state, ServerState::Accepting { secure });
        assert_eq!(action(&step), format!("serve {}", secure));
        assert_eq!(log(&step), None);
    }
}

#[test]
fn a_failed_accept_is_logged_and_survived() {
    let cfg = config(8080, None);
    let step = advance(
        &cfg,
        ServerState::Accepting { secure: false },
        ServerEvent::AcceptFailed("Too many open files".to_string()),
    );
    assert_eq!(step.state, ServerState::Accepting { secure: false });
    assert_eq!(action(&step), "accept");
    assert_eq!(log(&step), Some((Level::Error, "Failed to accept connection: Too many open files")));
}

#[test]
fn a_stopped_server_stays_stopped() {
    let cfg = config(8080, Some((true, "c.pem", "k.pem")));
    for event in [
        ServerEvent::Bound,
        ServerEvent::Accepted,
        ServerEvent::AcceptorBuilt,
        ServerEvent::AcceptFailed("x".to_string()),
    ] {
        let step = advance(&cfg, ServerState::Stopped, event);
        assert_eq!(step.state, ServerState::Stopped);
        assert_eq!(action(&step), "stop");
        assert_eq!(log(&step), None);
    }
}

#[test]
fn an_event_out_of_place_changes_nothing() {
    let cfg = config(8080, Some((true, "c.pem", "k.pem")));
    let step = advance(&cfg, ServerState::Binding, ServerEvent::Accepted);
    assert_eq!(step.state, ServerState::Binding);
    assert_eq!(action(&step), "bind 127.0.0.1 8080");
    let step = advance(&cfg, ServerState::LoadingCertificates, ServerEvent::KeyLoaded);
    assert_eq!(step.state, ServerState::LoadingCertificates);
    assert_eq!(action(&step), "certificates c.pem");
    let step = advance(&cfg, ServerState::LoadingKey, ServerEvent::Bound);
    assert_eq!(step.state, ServerState::LoadingKey);
    assert_eq!(action(&step), "key k.pem");
    let step = advance(&cfg, ServerState::BuildingAcceptor, ServerEvent::BindFailed("x".to_string()));
    assert_eq!(step.state, ServerState::BuildingAcceptor);
    assert_eq!(action(&step), "acceptor");
    assert_eq!(log(&step), None);
    let step = advance(&cfg, ServerState::Accepting { secure: true }, ServerEvent::Bound);
    assert_eq!(step.state, ServerState::Accepting { secure: true });
    assert_eq!(action(&step), "accept");
}

#[test]
fn tls_offers_h2_then_http1() {
    assert_eq!(alpn_protocols(), vec![b"h2".to_vec(), b"http/1.1".to_vec()]);
}

#[test]
fn a_connection_starts_with_the_handshake_behind_tls() {
    assert_eq!(open_connection(true), ConnectionState::Handshaking);
    assert_eq!(open_connection(false), ConnectionState::Serving);
}

#[test]
fn a_connection_runs_to_its_end() {
    let (state, line) = connection_step(ConnectionState::Handshaking, ConnectionEvent::HandshakeDone);
    assert_eq!(state, ConnectionState::Serving);
    assert!(line.is_none());
    let (state, line) = connection_step(state, ConnectionEvent::Finished);
    assert_eq!(state, ConnectionState::Closed);
    assert!(line.is_none());
    let (state, line) = connection_step(state, ConnectionEvent::Failed("late".to_string()));
    assert_eq!(state, ConnectionState::Closed);
    assert!(line.is_none());
}

#[test]
fn a_failed_handshake_closes_the_connection() {
    let (state, line) = connection_step(ConnectionState::Handshaking, ConnectionEvent::HandshakeFailed);
    assert_eq!(state, ConnectionState::Closed);
    let line = line.expect("a log line");
    assert_eq!(line.level, Level::Error);
    assert_eq!(line.message, "Error during TLS handshake");
}

#[test]
fn a_failure_while_serving_closes_the_connection() {
    let (state, line) =
        connection_step(ConnectionState::Serving, ConnectionEvent::Failed("broken pipe".to_string()));
    assert_eq!(state, ConnectionState::Closed);
    let line = line.expect("a log line");
    assert_eq!(line.level, Level::Error);
    assert_eq!(line.message, "Error serving connection: broken pipe");
}

#[test]
fn a_connection_event_out_of_place_changes_nothing() {
    let (state, line) = connection_step(ConnectionState::Serving, ConnectionEvent::HandshakeFailed);
    assert_eq!(state, ConnectionState::Serving);
    assert!(line.is_none());
    let (state, line) = connection_step(ConnectionState::Handshaking, ConnectionEvent::Finished);
    assert_eq!(state, ConnectionState::Handshaking);
    assert!(line.is_none());
}

//! The configuration that the server is started with.

use vstd::prelude::*;

verus! {

/// The whole configuration.
#[derive(Debug, Clone)]
pub struct Config {
    pub server: Server,
    pub ssl: Option<Ssl>,
    pub database: Database,
}

/// Where the server listens.
#[derive(Debug, Clone)]
pub struct Server {
    pub ip: String,
    pub port: u16,
}

/// Whether connections are wrapped in TLS, and with which certificate and key.
#[derive(Debug, Clone)]
pub struct Ssl {
    pub tls: bool,
    pub cert_path: String,
    pub key_path: String,
}

/// How the database is reached.
#[derive(Debug, Clone)]
pub struct Database {
    pub ip: String,
    pub port: u16,
    pub user: String,
    pub password: String,
    pub database: String,
}

} // verus!

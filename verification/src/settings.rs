//! Process configuration values. Loading them from files and the
//! environment is I/O and lives outside the library; these are the plain
//! values the rest of the code works with, with their defaults.

use vstd::prelude::*;

verus! {

/// Where the HTTP listener binds.
#[derive(Debug, Clone)]
pub struct Http {
    pub host: String,
    pub port: u16,
}

impl Default for Http {
    /// Listens on every interface, port 3000.
    fn default() -> (r: Self)
        ensures
            r.host@ == "0.0.0.0"@,
            r.port == 3000,
    {
        Http { host: "0.0.0.0".to_owned(), port: 3000 }
    }
}

/// The verbosity of the process's logging.
#[derive(Debug, Clone)]
pub enum LoggingLevel {
    Trace,
    Debug,
    Info,
    Warning,
    Error,
}

impl Default for LoggingLevel {
    fn default() -> (r: Self)
        ensures
            r is Warning,
    {
        LoggingLevel::Warning
    }
}

/// Logging configuration.
#[derive(Debug, Clone)]
pub struct Logging {
    pub level: LoggingLevel,
}

impl Default for Logging {
    fn default() -> (r: Self)
        ensures
            r.level is Warning,
    {
        Logging { level: LoggingLevel::Warning }
    }
}

/// How to reach the remote store backing the networked engine.
#[derive(Debug, Clone)]
pub struct RedisBackend {
    pub connection: String,
}

impl Default for RedisBackend {
    fn default() -> (r: Self)
        ensures
            r.connection@ == "redis://localhost:6379/0"@,
    {
        RedisBackend { connection: "redis://localhost:6379/0".to_owned() }
    }
}

/// Which engine variant the process runs.
#[derive(Debug, Clone)]
pub enum Backend {
    Redis(RedisBackend),
    InMemory,
}

impl Default for Backend {
    fn default() -> (r: Self)
        ensures
            r is InMemory,
    {
        Backend::InMemory
    }
}

/// The whole process configuration.
#[derive(Debug, Clone)]
pub struct Config {
    pub http: Http,
    pub logging: Logging,
    pub backend: Backend,
}

impl Default for Config {
    fn default() -> (r: Self)
        ensures
            r.http.host@ == "0.0.0.0"@,
            r.http.port == 3000,
            r.logging.level is Warning,
            r.backend is InMemory,
    {
        Config { http: Http::default(), logging: Logging::default(), backend: Backend::default() }
    }
}

} // verus!

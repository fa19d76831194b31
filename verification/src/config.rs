use vstd::prelude::*;

verus! {

/// Where the server listens.
#[derive(Debug, Clone)]
pub struct ServerConfig {
    pub host: String,
    pub port: u16,
    pub address: String,
}

/// How the service logs.
#[derive(Debug, Clone)]
pub struct LoggingConfig {
    pub level: String,
    pub json_format: bool,
}

/// Which cross-origin callers are admitted.
#[derive(Debug, Clone)]
pub struct CorsConfig {
    pub enabled: bool,
    pub origins: Vec<String>,
}

/// The application configuration as plain data. Sourcing it from files and
/// environment variables is the boundary's business and stays outside the
/// verified core.
#[derive(Debug, Clone)]
pub struct AppConfig {
    pub environment: String,
    pub server: ServerConfig,
    pub logging: LoggingConfig,
    pub cors: CorsConfig,
}

} // verus!

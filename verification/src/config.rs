//! Settings of the relay and of the client, and the limits they share.
use vstd::prelude::*;
use crate::text::same_text;

verus! {

pub const DEFAULT_RELAY_URL: &'static str = "wss://relay.darsha.dev/tunnel";

pub const DEFAULT_DOMAIN: &'static str = "darsha.dev";

pub const DEFAULT_BIND_ADDR: &'static str = "0.0.0.0:8443";

/// Nanoseconds in a second: the relay's clock counts nanoseconds.
pub const NANOS_PER_SEC: u64 = 1_000_000_000;

/// Heartbeat interval in seconds.
pub const HEARTBEAT_INTERVAL_SECS: u64 = 30;

/// Session timeout if no heartbeat received (seconds).
pub const SESSION_TIMEOUT_SECS: u64 = 90;

/// Maximum request/response body size (10 MB).
pub const MAX_BODY_SIZE: usize = 10485760;

/// Heartbeat ack timeout in seconds.
pub const HEARTBEAT_ACK_TIMEOUT_SECS: u64 = 10;

/// Maximum reconnect backoff in seconds.
pub const MAX_RECONNECT_BACKOFF_SECS: u64 = 30;

/// Initial reconnect backoff in seconds.
pub const INITIAL_RECONNECT_BACKOFF_SECS: u64 = 1;

/// URL generation retry limit.
pub const URL_GEN_MAX_RETRIES: u32 = 5;

/// Minimum token length (bytes).
pub const MIN_TOKEN_LENGTH: usize = 32;

/// HMAC key length for frame integrity (32 bytes = 256 bits).
pub const HMAC_KEY_LENGTH: usize = 32;

/// Maximum headers per request to prevent DOS.
pub const MAX_HEADERS_PER_REQUEST: usize = 128;

/// Maximum header name length (bytes).
pub const MAX_HEADER_NAME_LEN: usize = 256;

/// Maximum header value length (bytes).
pub const MAX_HEADER_VALUE_LEN: usize = 8192;

/// Request rate limit per client: max requests per second.
pub const RATE_LIMIT_PER_CLIENT: u32 = 1000;

/// Global rate limit: max requests per second across all clients.
pub const GLOBAL_RATE_LIMIT: u32 = 10000;

/// Nonce cache duration in seconds for replay protection.
pub const NONCE_CACHE_DURATION_SECS: u64 = 300;

#[verifier::external_type_specification]
#[verifier::external_body]
pub struct ExIoError(std::io::Error);

/// Why a tunnel could not be set up or kept up.
#[derive(Debug)]
pub enum TunnelError {
    RelayUnavailable(String),
    LocalhostDown { port: u16, reason: String },
    SessionExpired,
    ProtocolError(String),
    ConnectionError(String),
    ConfigError(String),
    Io(std::io::Error),
}

/// Settings of the relay server.
#[derive(Debug, Clone)]
pub struct RelayConfig {
    pub bind_addr: String,
    pub domain: String,
    pub tls_cert_path: Option<String>,
    pub tls_key_path: Option<String>,
    pub path_routing: bool,
}

/// The view of an optional string.
pub open spec fn opt_text(o: Option<String>) -> Option<Seq<char>> {
    match o {
        Some(s) => Some(s@),
        None => None,
    }
}

impl RelayConfig {
    /// The settings that hold when no variable overrides them.
    pub open spec fn is_default(&self) -> bool {
        &&& self.bind_addr@ == DEFAULT_BIND_ADDR@
        &&& self.domain@ == DEFAULT_DOMAIN@
        &&& self.tls_cert_path is None
        &&& self.tls_key_path is None
        &&& !self.path_routing
    }

    /// The settings given by the values of `RELAY_BIND`, `RELAY_DOMAIN`, `TLS_CERT`, `TLS_KEY`
    /// and `PATH_ROUTING`, each `None` where the variable is not set.  Path routing is on only
    /// where `PATH_ROUTING` reads `true`, the one text that parses as the boolean true.
    pub fn from_env_values(
        bind: Option<String>,
        domain: Option<String>,
        cert: Option<String>,
        key: Option<String>,
        path_routing: Option<String>,
    ) -> (config: Self)
        ensures
            config.bind_addr@ == (match bind {
                Some(b) => b@,
                None => DEFAULT_BIND_ADDR@,
            }),
            config.domain@ == (match domain {
                Some(d) => d@,
                None => DEFAULT_DOMAIN@,
            }),
            opt_text(config.tls_cert_path) == opt_text(cert),
            opt_text(config.tls_key_path) == opt_text(key),
            config.path_routing == (path_routing is Some && path_routing->0@ == "true"@),
    {
        let mut config = RelayConfig::default();
        if let Some(b) = bind {
            config.bind_addr = b;
        }
        if let Some(d) = domain {
            config.domain = d;
        }
        config.tls_cert_path = cert;
        config.tls_key_path = key;
        if let Some(p) = path_routing {
            config.path_routing = same_text(p.as_str(), "true");
        }
        config
    }

    /// TLS is on when both a certificate and a key are configured.
    pub fn tls_enabled(&self) -> (res: bool)
        ensures
            res == (self.tls_cert_path is Some && self.tls_key_path is Some),
    {
        self.tls_cert_path.is_some() && self.tls_key_path.is_some()
    }
}

impl Default for RelayConfig {
    fn default() -> (config: Self)
        ensures
            config.is_default(),
    {
        RelayConfig {
            bind_addr: String::from_str(DEFAULT_BIND_ADDR),
            domain: String::from_str(DEFAULT_DOMAIN),
            tls_cert_path: None,
            tls_key_path: None,
            path_routing: false,
        }
    }
}

/// Settings of the tunnel client.
#[derive(Debug, Clone)]
pub struct ClientConfig {
    pub port: u16,
    pub relay_url: String,
}

impl ClientConfig {
    /// The client settings; the relay URL falls back to the default relay.
    pub fn new(port: u16, relay_url: Option<String>) -> (config: Self)
        ensures
            config.port == port,
            config.relay_url@ == (match relay_url {
                Some(u) => u@,
                None => DEFAULT_RELAY_URL@,
            }),
    {
        let url = match relay_url {
            Some(u) => u,
            None => String::from_str(DEFAULT_RELAY_URL),
        };
        ClientConfig { port, relay_url: url }
    }
}

} // verus!

//! Wire messages exchanged between the tunnel client and the relay.
use vstd::prelude::*;

verus! {

/// Wire protocol version sent during registration.
pub const PROTOCOL_VERSION: u8 = 1;

/// Maximum chunk size for streaming HTTP bodies (64 KB).
pub const CHUNK_SIZE: usize = 65536;

/// One message of the tunnel protocol.
#[derive(Debug, Clone, PartialEq, Eq)]
pub enum TunnelFrame {
    Register {
        token: String,
        version: u8,
        /// Client-requested subdomain (None = auto-generate).
        requested_subdomain: Option<String>,
        /// Requested tunnel duration in seconds (None = server default).
        duration_secs: Option<u64>,
    },
    Registered {
        subdomain: String,
        public_url: String,
        /// How many seconds until this tunnel expires.
        expires_in_secs: Option<u64>,
    },
    Heartbeat,
    HeartbeatAck,
    Disconnect,
    HttpRequest {
        request_id: u64,
        method: String,
        path: String,
        headers: Vec<(String, String)>,
        body: Vec<u8>,
    },
    HttpResponseHeader {
        request_id: u64,
        status: u16,
        headers: Vec<(String, String)>,
    },
    HttpResponseBody {
        request_id: u64,
        chunk: Vec<u8>,
        finished: bool,
    },
    WsOpen {
        request_id: u64,
        path: String,
        headers: Vec<(String, String)>,
    },
    WsFrame {
        request_id: u64,
        data: Vec<u8>,
        opcode: u8,
    },
    WsClose {
        request_id: u64,
    },
    Error {
        code: u16,
        message: String,
    },
}

impl TunnelFrame {
    /// A registration with no requested subdomain and no requested duration.
    pub fn register(token: String) -> (frame: Self)
        ensures
            frame == (TunnelFrame::Register {
                token,
                version: PROTOCOL_VERSION,
                requested_subdomain: None,
                duration_secs: None,
            }),
    {
        TunnelFrame::Register {
            token,
            version: PROTOCOL_VERSION,
            requested_subdomain: None,
            duration_secs: None,
        }
    }

    /// A registration that carries the client's requested subdomain and duration.
    pub fn register_with_options(
        token: String,
        subdomain: Option<String>,
        duration_secs: Option<u64>,
    ) -> (frame: Self)
        ensures
            frame == (TunnelFrame::Register {
                token,
                version: PROTOCOL_VERSION,
                requested_subdomain: subdomain,
                duration_secs,
            }),
    {
        TunnelFrame::Register {
            token,
            version: PROTOCOL_VERSION,
            requested_subdomain: subdomain,
            duration_secs,
        }
    }

    /// An error report with the given code and message.
    pub fn error(code: u16, message: String) -> (frame: Self)
        ensures
            frame == (TunnelFrame::Error { code, message }),
    {
        TunnelFrame::Error { code, message }
    }
}

/// A WebSocket message as the tunnel logic sees it.
#[derive(Debug)]
pub enum Incoming {
    /// A binary message that decoded to a frame.
    Frame(TunnelFrame),
    /// A binary message that did not decode; the decoder's error text.
    Undecodable(String),
    /// A close message.
    Close,
    /// A ping, with its payload.
    Ping(Vec<u8>),
    /// A text or pong message, or a raw frame.
    Other,
    /// The transport failed; its error text.
    Failed(String),
    /// The stream ended.
    Ended,
}

} // verus!

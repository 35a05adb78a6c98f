//! The tunnel client's decisions: where to connect, how to register, what each event asks for,
//! and how a local response goes back through the tunnel.
use vstd::prelude::*;
use rand::Rng;
use vstd::string::{StrSliceExecFns, StringSliceAdditionalSpecFns};
use crate::config::{opt_text, TunnelError, MIN_TOKEN_LENGTH};
use crate::crypto::{hex_encode, hex_lower};
use crate::frame::{Incoming, TunnelFrame, CHUNK_SIZE, PROTOCOL_VERSION};
use crate::relay::{public_url_text, register_step_ok, AppState, RegisterStep};
use crate::text::{
    byte_len, contains, contains_seq, decimal, decimal_text, first_index_of, index_of_char, join2,
    replace, replace_all, same_text, slice, spec_to_lowercase, to_lowercase,
};

verus! {

/// The tunnel duration when none is given: 30 minutes.
pub const DEFAULT_TUNNEL_DURATION_SECS: u64 = 1800;

/// The duration a tunnel is requested for: the one given, else 30 minutes.
pub fn tunnel_duration(duration: Option<u64>) -> (secs: u64)
    ensures
        secs == (match duration {
            Some(d) => d,
            None => DEFAULT_TUNNEL_DURATION_SECS,
        }),
{
    match duration {
        Some(d) => d,
        None => DEFAULT_TUNNEL_DURATION_SECS,
    }
}

/// The URL the client dials: a relay on `localhost` or `127.0.0.1` is reached without TLS.
pub open spec fn connect_url_text(url: Seq<char>) -> Seq<char> {
    if contains_seq(url, "localhost"@) || contains_seq(url, "127.0.0.1"@) {
        replace_all(url, "wss://"@, "ws://"@)
    } else {
        url
    }
}

/// The URL to connect to for a configured relay URL.
pub fn connect_url(url: &str) -> (res: String)
    ensures
        res@ == connect_url_text(url@),
{
    if contains(url, "localhost") || contains(url, "127.0.0.1") {
        proof {
            reveal_strlit("wss://");
        }
        replace(url, "wss://", "ws://")
    } else {
        slice(url, 0, url.unicode_len())
    }
}

/// The relay's host as shown to the user: the URL without its scheme, up to the first `/`.
pub open spec fn relay_label_text(url: Seq<char>) -> Seq<char> {
    let bare = replace_all(replace_all(url, "ws://"@, ""@), "wss://"@, ""@);
    match first_index_of(bare, '/') {
        Some(i) => bare.take(i),
        None => bare,
    }
}

/// The relay's host as shown to the user.
pub fn relay_label(url: &str) -> (res: String)
    ensures
        res@ == relay_label_text(url@),
{
    proof {
        reveal_strlit("ws://");
        reveal_strlit("wss://");
        reveal_strlit("");
    }
    let a = replace(url, "ws://", "");
    let bare = replace(a.as_str(), "wss://", "");
    match index_of_char(bare.as_str(), '/') {
        Some(i) => slice(bare.as_str(), 0, i),
        None => {
            let n = bare.as_str().unicode_len();
            let res = slice(bare.as_str(), 0, n);
            assert(res@ =~= bare@);
            res
        },
    }
}

/// `rand::rng().random_range(0..256)`: a random byte.
#[verifier::external_body]
fn random_byte() -> (b: u8) {
    rand::rng().random_range(0..256) as u8
}

/// Generate a cryptographically secure token for tunnel registration: 32 random bytes
/// (256 bits), written as lower-case hex.
pub fn generate_token() -> (token: String)
    ensures
        exists|bytes: Seq<u8>| bytes.len() == 32 && token@ == hex_lower(bytes),
        token@.len() == 64,
{
    let mut bytes: Vec<u8> = Vec::new();
    let mut i: usize = 0;
    while i < 32
        invariant
            i <= 32,
            bytes@.len() == i,
        decreases 32 - i,
    {
        bytes.push(random_byte());
        i = i + 1;
    }
    let token = hex_encode(bytes.as_slice());
    proof {
        crate::crypto::lemma_hex_lower_len(bytes@);
    }
    token
}

/// A token of `generate_token` is long enough for the relay's `MIN_TOKEN_LENGTH` check: it is
/// 64 ASCII characters, so 64 bytes.
pub proof fn law_generated_token_long_enough(bytes: Seq<u8>)
    requires
        bytes.len() == 32,
    ensures
        byte_len(hex_lower(bytes)) >= MIN_TOKEN_LENGTH,
{
    crate::crypto::lemma_hex_lower_len(bytes);
    crate::crypto::lemma_hex_lower_ascii(bytes);
    vstd::utf8::is_ascii_chars_encode_utf8(hex_lower(bytes));
}

/// What the client makes of a message while it waits for its registration to be confirmed.
#[derive(Debug)]
pub enum RegistrationReply {
    /// Keep waiting.
    Wait,
    /// The tunnel is up; `expires_in` falls back to the requested duration.
    Registered { subdomain: String, public_url: String, expires_in: u64 },
    /// Registration failed; `shown` tells whether the relay's refusal is to be shown as a failed
    /// step.
    Failed { error: TunnelError, shown: bool },
}

/// The text of a relay's refusal: `code: message`.
pub open spec fn refusal_text(code: u16, message: Seq<char>) -> Seq<char> {
    decimal(code as nat) + ": "@ + message
}

/// The reply for each message that may arrive while registering.
pub open spec fn registration_reply_ok(msg: Incoming, duration_secs: u64, reply: RegistrationReply) -> bool {
    match msg {
        Incoming::Frame(TunnelFrame::Registered { subdomain, public_url, expires_in_secs }) => reply
            == (RegistrationReply::Registered {
            subdomain,
            public_url,
            expires_in: match expires_in_secs {
                Some(e) => e,
                None => duration_secs,
            },
        }),
        Incoming::Frame(TunnelFrame::Error { code, message }) => reply matches RegistrationReply::Failed {
            error: TunnelError::ProtocolError(t),
            shown,
        } && shown && t@ == refusal_text(code, message@),
        Incoming::Frame(_) => reply is Wait,
        Incoming::Undecodable(e) => reply matches RegistrationReply::Failed {
            error: TunnelError::ProtocolError(t),
            shown,
        } && !shown && t@ == e@,
        Incoming::Close => reply matches RegistrationReply::Failed {
            error: TunnelError::ConnectionError(t),
            shown,
        } && !shown && t@ == "relay closed connection"@,
        Incoming::Ended => reply matches RegistrationReply::Failed {
            error: TunnelError::ConnectionError(t),
            shown,
        } && !shown && t@ == "relay closed connection"@,
        Incoming::Failed(e) => reply matches RegistrationReply::Failed {
            error: TunnelError::ConnectionError(t),
            shown,
        } && !shown && t@ == e@,
        Incoming::Ping(_) => reply is Wait,
        Incoming::Other => reply is Wait,
    }
}

/// Decide on a message read while waiting for `Registered`.
pub fn on_registration_message(msg: Incoming, duration_secs: u64) -> (reply: RegistrationReply)
    ensures
        registration_reply_ok(msg, duration_secs, reply),
{
    match msg {
        Incoming::Frame(frame) => match frame {
            TunnelFrame::Registered { subdomain, public_url, expires_in_secs } => {
                let expires_in = match expires_in_secs {
                    Some(e) => e,
                    None => duration_secs,
                };
                RegistrationReply::Registered { subdomain, public_url, expires_in }
            },
            TunnelFrame::Error { code, message } => {
                let c = decimal_text(code as u64);
                let head = join2(c.as_str(), ": ");
                let text = join2(head.as_str(), message.as_str());
                RegistrationReply::Failed { error: TunnelError::ProtocolError(text), shown: true }
            },
            _ => RegistrationReply::Wait,
        },
        Incoming::Undecodable(e) => RegistrationReply::Failed {
            error: TunnelError::ProtocolError(e),
            shown: false,
        },
        Incoming::Close => RegistrationReply::Failed {
            error: TunnelError::ConnectionError(String::from_str("relay closed connection")),
            shown: false,
        },
        Incoming::Ended => RegistrationReply::Failed {
            error: TunnelError::ConnectionError(String::from_str("relay closed connection")),
            shown: false,
        },
        Incoming::Failed(e) => RegistrationReply::Failed {
            error: TunnelError::ConnectionError(e),
            shown: false,
        },
        Incoming::Ping(_) => RegistrationReply::Wait,
        Incoming::Other => RegistrationReply::Wait,
    }
}

/// Something that happens while the tunnel is up.
#[derive(Debug)]
pub enum ClientEvent {
    /// Ctrl-C.
    Shutdown,
    /// The relay stopped acknowledging heartbeats.
    HeartbeatFailed,
    /// The countdown ticked, `elapsed_secs` after the tunnel came up.
    Tick { elapsed_secs: u64 },
    /// A request was logged, `elapsed_secs` after the tunnel came up.
    Logged { elapsed_secs: u64 },
    /// A key was pressed: its character, if it has one.
    Key(Option<char>),
    /// A message from the relay.
    Relay(Incoming),
}

/// What is shown when the tunnel stops.
#[derive(Debug, Clone, Copy, PartialEq, Eq)]
pub enum StopNotice {
    Nothing,
    HeartbeatTimeout,
    Expired,
}

/// What the client does about an event.
#[derive(Debug)]
pub enum ClientAction {
    /// Leave the loop; tell the relay `Disconnect` when asked to by the user.
    Stop { send_disconnect: bool, notice: StopNotice },
    /// Show the countdown.
    Countdown { remaining: u64 },
    /// Show the logged request, then the countdown.
    ShowLog { remaining: u64 },
    /// Copy the public URL to the clipboard.
    CopyUrl,
    /// Note a heartbeat acknowledgement.
    AckHeartbeat,
    /// Proxy an HTTP request to localhost.
    ProxyHttp { request_id: u64, method: String, path: String, headers: Vec<(String, String)>, body: Vec<u8> },
    /// Open a WebSocket to localhost.
    OpenWs { request_id: u64, path: String, headers: Vec<(String, String)> },
    /// Pass a WebSocket frame to localhost.
    ForwardWs { request_id: u64, data: Vec<u8>, opcode: u8 },
    /// Close a localhost WebSocket.
    CloseWs { request_id: u64 },
    /// Show the relay's error.
    ReportRelayError { code: u16, message: String },
    /// Answer a ping.
    Pong(Vec<u8>),
    /// Nothing to do.
    Ignore,
}

/// Seconds left of a tunnel of `total` seconds after `elapsed` seconds.
pub open spec fn remaining_after_spec(total: u64, elapsed: u64) -> u64 {
    if elapsed >= total {
        0
    } else {
        (total - elapsed) as u64
    }
}

/// The action for each event of a tunnel that lasts `expires_in` seconds.
pub open spec fn client_action_ok(expires_in: u64, event: ClientEvent, action: ClientAction) -> bool {
    match event {
        ClientEvent::Shutdown => action == (ClientAction::Stop { send_disconnect: true, notice: StopNotice::Nothing }),
        ClientEvent::HeartbeatFailed => action == (ClientAction::Stop {
            send_disconnect: false,
            notice: StopNotice::HeartbeatTimeout,
        }),
        ClientEvent::Tick { elapsed_secs } => if remaining_after_spec(expires_in, elapsed_secs) == 0 {
            action == (ClientAction::Stop { send_disconnect: false, notice: StopNotice::Expired })
        } else {
            action == (ClientAction::Countdown { remaining: remaining_after_spec(expires_in, elapsed_secs) })
        },
        ClientEvent::Logged { elapsed_secs } => action == (ClientAction::ShowLog {
            remaining: remaining_after_spec(expires_in, elapsed_secs),
        }),
        ClientEvent::Key(k) => if k == Some('q') || k == Some('Q') {
            action == (ClientAction::Stop { send_disconnect: true, notice: StopNotice::Nothing })
        } else if k == Some('c') || k == Some('C') {
            action is CopyUrl
        } else {
            action is Ignore
        },
        ClientEvent::Relay(msg) => match msg {
            Incoming::Frame(f) => match f {
                TunnelFrame::HeartbeatAck => action is AckHeartbeat,
                TunnelFrame::HttpRequest { request_id, method, path, headers, body } => action
                    == (ClientAction::ProxyHttp { request_id, method, path, headers, body }),
                TunnelFrame::WsOpen { request_id, path, headers } => action == (ClientAction::OpenWs {
                    request_id,
                    path,
                    headers,
                }),
                TunnelFrame::WsFrame { request_id, data, opcode } => action == (ClientAction::ForwardWs {
                    request_id,
                    data,
                    opcode,
                }),
                TunnelFrame::WsClose { request_id } => action == (ClientAction::CloseWs { request_id }),
                TunnelFrame::Disconnect => action == (ClientAction::Stop {
                    send_disconnect: false,
                    notice: StopNotice::Nothing,
                }),
                TunnelFrame::Error { code, message } => action == (ClientAction::ReportRelayError {
                    code,
                    message,
                }),
                _ => action is Ignore,
            },
            Incoming::Undecodable(_) => action is Ignore,
            Incoming::Close => action == (ClientAction::Stop { send_disconnect: false, notice: StopNotice::Nothing }),
            Incoming::Ended => action == (ClientAction::Stop { send_disconnect: false, notice: StopNotice::Nothing }),
            Incoming::Failed(_) => action == (ClientAction::Stop {
                send_disconnect: false,
                notice: StopNotice::Nothing,
            }),
            Incoming::Ping(data) => action == ClientAction::Pong(data),
            Incoming::Other => action is Ignore,
        },
    }
}

/// Seconds left of a tunnel of `total` seconds after `elapsed` seconds.
pub fn remaining_after(total: u64, elapsed: u64) -> (left: u64)
    ensures
        left == remaining_after_spec(total, elapsed),
{
    total.saturating_sub(elapsed)
}

/// Decide on an event of a live tunnel that lasts `expires_in` seconds.  The user's Ctrl-C or
/// `q` ends it with a `Disconnect` to the relay; a missed heartbeat, expiry, or the relay's
/// `Disconnect` or close end it without.
pub fn on_client_event(expires_in: u64, event: ClientEvent) -> (action: ClientAction)
    ensures
        client_action_ok(expires_in, event, action),
{
    match event {
        ClientEvent::Shutdown => ClientAction::Stop { send_disconnect: true, notice: StopNotice::Nothing },
        ClientEvent::HeartbeatFailed => ClientAction::Stop {
            send_disconnect: false,
            notice: StopNotice::HeartbeatTimeout,
        },
        ClientEvent::Tick { elapsed_secs } => {
            let remaining = remaining_after(expires_in, elapsed_secs);
            if remaining == 0 {
                ClientAction::Stop { send_disconnect: false, notice: StopNotice::Expired }
            } else {
                ClientAction::Countdown { remaining }
            }
        },
        ClientEvent::Logged { elapsed_secs } => ClientAction::ShowLog {
            remaining: remaining_after(expires_in, elapsed_secs),
        },
        ClientEvent::Key(k) => match k {
            Some(c) => {
                if c == 'q' || c == 'Q' {
                    ClientAction::Stop { send_disconnect: true, notice: StopNotice::Nothing }
                } else if c == 'c' || c == 'C' {
                    ClientAction::CopyUrl
                } else {
                    ClientAction::Ignore
                }
            },
            None => ClientAction::Ignore,
        },
        ClientEvent::Relay(msg) => match msg {
            Incoming::Frame(f) => match f {
                TunnelFrame::HeartbeatAck => ClientAction::AckHeartbeat,
                TunnelFrame::HttpRequest { request_id, method, path, headers, body } => {
                    ClientAction::ProxyHttp { request_id, method, path, headers, body }
                },
                TunnelFrame::WsOpen { request_id, path, headers } => {
                    ClientAction::OpenWs { request_id, path, headers }
                },
                TunnelFrame::WsFrame { request_id, data, opcode } => {
                    ClientAction::ForwardWs { request_id, data, opcode }
                },
                TunnelFrame::WsClose { request_id } => ClientAction::CloseWs { request_id },
                TunnelFrame::Disconnect => ClientAction::Stop {
                    send_disconnect: false,
                    notice: StopNotice::Nothing,
                },
                TunnelFrame::Error { code, message } => ClientAction::ReportRelayError { code, message },
                _ => ClientAction::Ignore,
            },
            Incoming::Undecodable(_) => ClientAction::Ignore,
            Incoming::Close => ClientAction::Stop { send_disconnect: false, notice: StopNotice::Nothing },
            Incoming::Ended => ClientAction::Stop { send_disconnect: false, notice: StopNotice::Nothing },
            Incoming::Failed(_) => ClientAction::Stop {
                send_disconnect: false,
                notice: StopNotice::Nothing,
            },
            Incoming::Ping(data) => ClientAction::Pong(data),
            Incoming::Other => ClientAction::Ignore,
        },
    }
}

/// A hop-by-hop header, by its lower-cased name: it is not passed between the tunnel and
/// localhost.
pub open spec fn hop_by_hop_name(lname: Seq<char>) -> bool {
    lname == "connection"@ || lname == "transfer-encoding"@ || lname == "upgrade"@ || lname
        == "keep-alive"@ || lname == "proxy-connection"@
}

/// Whether a header, by its lower-cased name, is hop-by-hop.
pub fn hop_by_hop_lowercase(lname: &str) -> (hop: bool)
    ensures
        hop == hop_by_hop_name(lname@),
{
    same_text(lname, "connection") || same_text(lname, "transfer-encoding") || same_text(lname, "upgrade")
        || same_text(lname, "keep-alive") || same_text(lname, "proxy-connection")
}

/// Whether a header is hop-by-hop.
pub fn is_hop_by_hop(name: &str) -> (hop: bool)
    ensures
        hop == hop_by_hop_name(spec_to_lowercase(name@)),
{
    let l = to_lowercase(name);
    hop_by_hop_lowercase(l.as_str())
}

/// The headers passed between the tunnel and localhost: all but the hop-by-hop ones, in order.
pub fn end_to_end_headers(headers: &Vec<(String, String)>) -> (out: Vec<(String, String)>)
    ensures
        out@ == headers@.filter(|h: (String, String)| !hop_by_hop_name(spec_to_lowercase(h.0@))),
{
    let ghost keep = |h: (String, String)| !hop_by_hop_name(spec_to_lowercase(h.0@));
    let ghost all = headers@;
    let mut out: Vec<(String, String)> = Vec::new();
    let n = headers.len();
    let mut i: usize = 0;
    assert(all.take(0) =~= Seq::<(String, String)>::empty());
    assert(all.take(0).filter(keep) =~= Seq::<(String, String)>::empty()) by {
        reveal_with_fuel(Seq::<_>::filter, 1);
    }
    while i < n
        invariant
            n == all.len(),
            headers@ == all,
            i <= n,
            out@ == all.take(i as int).filter(keep),
            keep == (|h: (String, String)| !hop_by_hop_name(spec_to_lowercase(h.0@))),
        decreases n - i,
    {
        let h = (headers[i].0.clone(), headers[i].1.clone());
        assert(h == all[i as int]);
        proof {
            crate::routing::lemma_filter_step(all, i as int, keep);
        }
        if !is_hop_by_hop(h.0.as_str()) {
            out.push(h);
        }
        i = i + 1;
    }
    assert(all.take(n as int) =~= all);
    out
}

/// `http://localhost:<port><path>`: where a tunneled request goes.
pub fn local_http_url(port: u16, path: &str) -> (url: String)
    ensures
        url@ == "http://localhost:"@ + decimal(port as nat) + path@,
{
    let p = decimal_text(port as u64);
    let a = join2("http://localhost:", p.as_str());
    join2(a.as_str(), path)
}

/// `ws://127.0.0.1:<port><path>`: where a tunneled WebSocket goes.
pub fn local_ws_url(port: u16, path: &str) -> (url: String)
    ensures
        url@ == "ws://127.0.0.1:"@ + decimal(port as nat) + path@,
{
    let p = decimal_text(port as u64);
    let a = join2("ws://127.0.0.1:", p.as_str());
    join2(a.as_str(), path)
}

/// `data` cut into pieces of `CHUNK_SIZE` bytes, the last one shorter; nothing for no data.
pub open spec fn chunks_of(data: Seq<u8>) -> Seq<Seq<u8>>
    decreases data.len(),
{
    if data.len() == 0 {
        seq![]
    } else if data.len() <= CHUNK_SIZE {
        seq![data]
    } else {
        seq![data.take(CHUNK_SIZE as int)] + chunks_of(data.skip(CHUNK_SIZE as int))
    }
}

/// The frames carry the chunks of `data` in order, none of them final.
pub open spec fn carries_chunks(frames: Seq<TunnelFrame>, request_id: u64, chunks: Seq<Seq<u8>>) -> bool {
    &&& frames.len() == chunks.len()
    &&& forall|i: int|
        0 <= i < frames.len() ==> (#[trigger] frames[i] matches TunnelFrame::HttpResponseBody { request_id: r, chunk, finished }
            && r == request_id && chunk@ == chunks[i] && !finished)
}

/// The body frames for one piece of a local response body: at most `CHUNK_SIZE` bytes each.
pub fn body_chunk_frames(request_id: u64, data: &[u8]) -> (frames: Vec<TunnelFrame>)
    ensures
        carries_chunks(frames@, request_id, chunks_of(data@)),
{
    let n = data.len();
    let mut frames: Vec<TunnelFrame> = Vec::new();
    let mut i: usize = 0;
    let ghost mut done: Seq<Seq<u8>> = Seq::empty();
    assert(data@.skip(0) =~= data@);
    while i < n
        invariant
            n == data@.len(),
            i <= n,
            done + chunks_of(data@.skip(i as int)) == chunks_of(data@),
            carries_chunks(frames@, request_id, done),
        decreases n - i,
    {
        let end = if n - i <= CHUNK_SIZE {
            n
        } else {
            i + CHUNK_SIZE
        };
        let piece = vstd::slice::slice_to_vec(vstd::slice::slice_subrange(data, i, end));
        let ghost rest = data@.skip(i as int);
        proof {
            if n - i <= CHUNK_SIZE {
                assert(piece@ =~= rest);
                assert(rest.skip(rest.len() as int) =~= data@.skip(n as int));
                assert(chunks_of(data@.skip(n as int)) =~= Seq::<Seq<u8>>::empty());
                assert(chunks_of(rest) == seq![rest]);
                assert(done + chunks_of(rest) =~= done.push(piece@) + chunks_of(data@.skip(n as int)));
            } else {
                assert(piece@ =~= rest.take(CHUNK_SIZE as int));
                assert(rest.skip(CHUNK_SIZE as int) =~= data@.skip(i + CHUNK_SIZE));
                assert(done + chunks_of(rest) =~= done.push(piece@) + chunks_of(data@.skip(i + CHUNK_SIZE)));
            }
            done = done.push(piece@);
        }
        frames.push(TunnelFrame::HttpResponseBody { request_id, chunk: piece, finished: false });
        i = end;
    }
    assert(data@.skip(n as int) =~= Seq::<u8>::empty());
    assert(done + Seq::<Seq<u8>>::empty() =~= done);
    frames
}

/// The chunks of a body put back together give the body; each chunk holds between one and
/// `CHUNK_SIZE` bytes.
pub proof fn law_chunks_reassemble(data: Seq<u8>)
    ensures
        chunks_of(data).flatten() == data,
        forall|i: int| 0 <= i < chunks_of(data).len() ==> 0 < #[trigger] chunks_of(data)[i].len() <= CHUNK_SIZE,
    decreases data.len(),
{
    if data.len() == 0 {
        assert(chunks_of(data).flatten() =~= data);
    } else if data.len() <= CHUNK_SIZE {
        assert(seq![data].drop_first() =~= Seq::<Seq<u8>>::empty());
        assert(Seq::<Seq<u8>>::empty().flatten() =~= Seq::<u8>::empty());
        assert(chunks_of(data).flatten() == data + seq![data].drop_first().flatten());
        assert(data + Seq::<u8>::empty() =~= data);
    } else {
        let rest = data.skip(CHUNK_SIZE as int);
        law_chunks_reassemble(rest);
        let c = chunks_of(data);
        assert(c.drop_first() =~= chunks_of(rest));
        assert(data.take(CHUNK_SIZE as int) + rest =~= data);
        assert forall|i: int| 0 <= i < c.len() implies 0 < #[trigger] c[i].len() <= CHUNK_SIZE by {
            if i > 0 {
                assert(c[i] == chunks_of(rest)[i - 1]);
            }
        }
    }
}

/// The frame that ends a response body.
pub fn end_of_body(request_id: u64) -> (frame: TunnelFrame)
    ensures
        frame matches TunnelFrame::HttpResponseBody { request_id: r, chunk, finished } && r == request_id
            && chunk@.len() == 0 && finished,
{
    TunnelFrame::HttpResponseBody { request_id, chunk: Vec::new(), finished: true }
}

/// The two frames of an error answer to a tunneled request: a `text/plain` header with
/// `status`, then the message as the whole body.
pub fn error_response_frames(request_id: u64, status: u16, message: &str) -> (frames: Vec<TunnelFrame>)
    ensures
        frames@.len() == 2,
        frames@[0] matches TunnelFrame::HttpResponseHeader { request_id: r, status: s, headers }
            && r == request_id && s == status && headers@.len() == 1
            && headers@[0].0@ == "Content-Type"@ && headers@[0].1@ == "text/plain"@,
        frames@[1] matches TunnelFrame::HttpResponseBody { request_id: r, chunk, finished }
            && r == request_id && chunk@ == message.spec_bytes() && finished,
{
    let mut headers: Vec<(String, String)> = Vec::new();
    headers.push((String::from_str("Content-Type"), String::from_str("text/plain")));
    let mut frames: Vec<TunnelFrame> = Vec::new();
    frames.push(TunnelFrame::HttpResponseHeader { request_id, status, headers });
    frames.push(
        TunnelFrame::HttpResponseBody { request_id, chunk: message.as_bytes_vec(), finished: true },
    );
    frames
}

/// The countdown never goes up as time passes, and it reaches zero exactly when the tunnel's
/// time is up, which is when a tick stops the client with the expiry notice.
pub proof fn law_countdown(total: u64, earlier: u64, later: u64)
    requires
        earlier <= later,
    ensures
        remaining_after_spec(total, later) <= remaining_after_spec(total, earlier),
        (remaining_after_spec(total, later) == 0) == (later >= total),
        later >= total ==> client_action_ok(
            total,
            ClientEvent::Tick { elapsed_secs: later },
            ClientAction::Stop { send_disconnect: false, notice: StopNotice::Expired },
        ),
{
}

/// What the relay confirms is what the client reports: for the `Registered` frame that
/// `AppState::registered_frame` builds, the client's reply is that the tunnel is up under the
/// same subdomain and public URL, expiring after the relay's duration, or after the requested
/// one when the relay names none.
pub proof fn law_registration_confirmed(
    state: AppState,
    subdomain: Seq<char>,
    duration: Option<u64>,
    requested: u64,
    frame: TunnelFrame,
    reply: RegistrationReply,
)
    requires
        frame matches TunnelFrame::Registered { subdomain: s, public_url, expires_in_secs } && s@ == subdomain
            && public_url@ == public_url_text(state.public_url_scheme@, state.domain@, state.path_routing, subdomain)
            && expires_in_secs == duration,
        registration_reply_ok(Incoming::Frame(frame), requested, reply),
    ensures
        reply matches RegistrationReply::Registered { subdomain: s, public_url, expires_in } && s@ == subdomain
            && public_url@ == public_url_text(state.public_url_scheme@, state.domain@, state.path_routing, subdomain)
            && expires_in == (match duration {
            Some(d) => d,
            None => requested,
        }),
{
}

/// The relay accepts what the client sends: a registration built by `register_with_options`
/// from a token of `generate_token` passes the relay's version and token checks, and is
/// accepted with the requested subdomain and duration.
pub proof fn law_client_registration_accepted(
    bytes: Seq<u8>,
    token: String,
    subdomain: Option<String>,
    duration_secs: Option<u64>,
    step: RegisterStep,
)
    requires
        bytes.len() == 32,
        token@ == hex_lower(bytes),
        register_step_ok(
            Incoming::Frame(
                TunnelFrame::Register {
                    token,
                    version: PROTOCOL_VERSION,
                    requested_subdomain: subdomain,
                    duration_secs,
                },
            ),
            step,
        ),
    ensures
        step == (RegisterStep::Accept { token, requested_subdomain: subdomain, duration_secs }),
{
    law_generated_token_long_enough(bytes);
}

/// Between the tunnel and localhost every header passes but the hop-by-hop ones, which are
/// exactly `Connection`, `Transfer-Encoding`, `Upgrade`, `Keep-Alive` and `Proxy-Connection` (by
/// lower-cased name): `Set-Cookie`, `Cookie`, `Location` or `Content-Type` always pass, in order.
pub proof fn law_end_to_end_headers_are_all_but_hop_by_hop(headers: Seq<(String, String)>)
    ensures
        headers.filter(|h: (String, String)| !hop_by_hop_name(spec_to_lowercase(h.0@))) == headers.filter(
            |h: (String, String)|
                {
                    let n = spec_to_lowercase(h.0@);
                    !(n == "connection"@ || n == "transfer-encoding"@ || n == "upgrade"@ || n == "keep-alive"@
                        || n == "proxy-connection"@)
                },
        ),
        forall|i: int|
            0 <= i < headers.len() && !(spec_to_lowercase(headers[i].0@) == "connection"@ || spec_to_lowercase(
                headers[i].0@,
            ) == "transfer-encoding"@ || spec_to_lowercase(headers[i].0@) == "upgrade"@ || spec_to_lowercase(
                headers[i].0@,
            ) == "keep-alive"@ || spec_to_lowercase(headers[i].0@) == "proxy-connection"@) ==> headers.filter(
                |h: (String, String)| !hop_by_hop_name(spec_to_lowercase(h.0@)),
            ).contains(#[trigger] headers[i]),
{
    broadcast use vstd::seq_lib::group_filter_ensures;
    let keep = |h: (String, String)| !hop_by_hop_name(spec_to_lowercase(h.0@));
    let listed = |h: (String, String)|
        {
            let n = spec_to_lowercase(h.0@);
            !(n == "connection"@ || n == "transfer-encoding"@ || n == "upgrade"@ || n == "keep-alive"@ || n
                == "proxy-connection"@)
        };
    assert(keep =~= listed);
    assert forall|i: int| 0 <= i < headers.len() && keep(headers[i]) implies headers.filter(keep).contains(
        #[trigger] headers[i],
    ) by {
        headers.lemma_filter_contains(keep, i);
    }
}

/// What the relay forwards from a browser, the client acts on unchanged: an HTTP request is
/// proxied to localhost with its own id, method, path, headers and body; a WebSocket opening is
/// opened on localhost with its own id, path and headers; a WebSocket frame and close go to
/// the local socket of their own id.
pub proof fn law_relay_requests_are_acted_on(
    expires_in: u64,
    request_id: u64,
    method: String,
    path: String,
    headers: Vec<(String, String)>,
    body: Vec<u8>,
    opcode: u8,
    action: ClientAction,
)
    ensures
        client_action_ok(
            expires_in,
            ClientEvent::Relay(Incoming::Frame(TunnelFrame::HttpRequest { request_id, method, path, headers, body })),
            action,
        ) ==> action == (ClientAction::ProxyHttp { request_id, method, path, headers, body }),
        client_action_ok(
            expires_in,
            ClientEvent::Relay(Incoming::Frame(TunnelFrame::WsOpen { request_id, path, headers })),
            action,
        ) ==> action == (ClientAction::OpenWs { request_id, path, headers }),
        client_action_ok(
            expires_in,
            ClientEvent::Relay(Incoming::Frame(TunnelFrame::WsFrame { request_id, data: body, opcode })),
            action,
        ) ==> action == (ClientAction::ForwardWs { request_id, data: body, opcode }),
        client_action_ok(expires_in, ClientEvent::Relay(Incoming::Frame(TunnelFrame::WsClose { request_id })), action)
            ==> action == (ClientAction::CloseWs { request_id }),
{
}

/// The user ends the tunnel with Ctrl-C, `q` or `Q`, and the relay is then told `Disconnect`;
/// `c` or `C` copies the public URL; the relay's `Disconnect` or a close ends it without.
pub proof fn law_user_controls(expires_in: u64, action: ClientAction)
    ensures
        client_action_ok(expires_in, ClientEvent::Shutdown, action) ==> action == (ClientAction::Stop {
            send_disconnect: true,
            notice: StopNotice::Nothing,
        }),
        client_action_ok(expires_in, ClientEvent::Key(Some('q')), action) ==> action == (ClientAction::Stop {
            send_disconnect: true,
            notice: StopNotice::Nothing,
        }),
        client_action_ok(expires_in, ClientEvent::Key(Some('Q')), action) ==> action == (ClientAction::Stop {
            send_disconnect: true,
            notice: StopNotice::Nothing,
        }),
        client_action_ok(expires_in, ClientEvent::Key(Some('c')), action) ==> action is CopyUrl,
        client_action_ok(expires_in, ClientEvent::Key(Some('C')), action) ==> action is CopyUrl,
        client_action_ok(expires_in, ClientEvent::Relay(Incoming::Frame(TunnelFrame::Disconnect)), action)
            ==> action == (ClientAction::Stop { send_disconnect: false, notice: StopNotice::Nothing }),
        client_action_ok(expires_in, ClientEvent::Relay(Incoming::Close), action) ==> action == (ClientAction::Stop {
            send_disconnect: false,
            notice: StopNotice::Nothing,
        }),
{
}

} // verus!

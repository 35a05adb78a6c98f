//! The relay's side of a tunnel connection: registration, and what each later message asks for.
use vstd::prelude::*;
use crate::config::{RelayConfig, MIN_TOKEN_LENGTH};
use crate::crypto::{hash_token, token_hash_text};
use crate::frame::{Incoming, TunnelFrame, PROTOCOL_VERSION};
use crate::session::{Session, SessionStore};
use crate::text::{byte_len, join2, spec_to_lowercase, trim_text, to_lowercase, trim};

verus! {

/// `f` is an error frame with the given code and message.
pub open spec fn is_error(f: TunnelFrame, code: u16, text: Seq<char>) -> bool {
    f matches TunnelFrame::Error { code: c, message } && c == code && message@ == text
}

/// What to do with a message that arrives before the client has registered.
#[derive(Debug)]
pub enum RegisterStep {
    /// Keep reading.
    Wait,
    /// Close the connection without a reply.
    Drop,
    /// Send this error frame, then close.
    Reject(TunnelFrame),
    /// The registration is acceptable.
    Accept { token: String, requested_subdomain: Option<String>, duration_secs: Option<u64> },
}

/// The first step of a connection, for each message the client may send first.
pub open spec fn register_step_ok(msg: Incoming, step: RegisterStep) -> bool {
    match msg {
        Incoming::Frame(TunnelFrame::Register { token, version, requested_subdomain, duration_secs }) => {
            if version != PROTOCOL_VERSION {
                step matches RegisterStep::Reject(f) && is_error(f, 426, "unsupported protocol version"@)
            } else if byte_len(token@) < MIN_TOKEN_LENGTH {
                step matches RegisterStep::Reject(f) && is_error(f, 400, "invalid token: too short"@)
            } else {
                step == (RegisterStep::Accept { token, requested_subdomain, duration_secs })
            }
        },
        Incoming::Frame(_) => step is Drop,
        Incoming::Undecodable(_) => step is Drop,
        Incoming::Close => step is Drop,
        Incoming::Failed(_) => step is Drop,
        Incoming::Ended => step is Drop,
        Incoming::Ping(_) => step is Wait,
        Incoming::Other => step is Wait,
    }
}

/// Decide on a message read while waiting for the client's registration: a registration with
/// the current protocol version and a token of at least `MIN_TOKEN_LENGTH` bytes is accepted.
pub fn on_register_message(msg: Incoming) -> (step: RegisterStep)
    ensures
        register_step_ok(msg, step),
{
    match msg {
        Incoming::Frame(frame) => match frame {
            TunnelFrame::Register { token, version, requested_subdomain, duration_secs } => {
                if version != PROTOCOL_VERSION {
                    RegisterStep::Reject(
                        TunnelFrame::error(426, String::from_str("unsupported protocol version")),
                    )
                } else if token.as_str().len() < MIN_TOKEN_LENGTH {
                    RegisterStep::Reject(
                        TunnelFrame::error(400, String::from_str("invalid token: too short")),
                    )
                } else {
                    RegisterStep::Accept { token, requested_subdomain, duration_secs }
                }
            },
            _ => RegisterStep::Drop,
        },
        Incoming::Ping(_) => RegisterStep::Wait,
        Incoming::Other => RegisterStep::Wait,
        _ => RegisterStep::Drop,
    }
}

/// A character allowed in a subdomain.
pub open spec fn subdomain_char(c: char) -> bool {
    ('a' <= c <= 'z') || ('A' <= c <= 'Z') || ('0' <= c <= '9') || c == '-'
}

/// A subdomain the relay accepts: non-empty, at most 63 bytes, ASCII letters, digits and
/// hyphens, not beginning or ending with a hyphen.
pub open spec fn valid_subdomain(s: Seq<char>) -> bool {
    &&& s.len() > 0
    &&& byte_len(s) <= 63
    &&& forall|i: int| 0 <= i < s.len() ==> subdomain_char(#[trigger] s[i])
    &&& s[0] != '-'
    &&& s[s.len() - 1] != '-'
}

/// Whether `s` is a subdomain the relay accepts.
pub fn is_valid_subdomain(s: &str) -> (ok: bool)
    ensures
        ok == valid_subdomain(s@),
{
    if s.is_empty() || s.len() > 63 {
        return false;
    }
    let n = s.unicode_len();
    let mut i: usize = 0;
    while i < n
        invariant
            n == s@.len(),
            i <= n,
            forall|j: int| 0 <= j < i ==> subdomain_char(#[trigger] s@[j]),
        decreases n - i,
    {
        let c = s.get_char(i);
        if !(('a' <= c && c <= 'z') || ('A' <= c && c <= 'Z') || ('0' <= c && c <= '9') || c == '-') {
            return false;
        }
        i = i + 1;
    }
    s.get_char(0) != '-' && s.get_char(n - 1) != '-'
}

/// The relay's answer to a requested subdomain.
#[derive(Debug)]
pub enum SubdomainChoice {
    /// Register the tunnel under this subdomain.
    Use(String),
    /// No subdomain was requested: make one up.
    Generate,
    /// Send this error frame, then close.
    Reject(TunnelFrame),
}

/// The message of the error sent for a malformed subdomain.
pub open spec fn invalid_subdomain_text() -> Seq<char> {
    "invalid subdomain: use lowercase letters, numbers, and hyphens"@
}

/// The message of the error sent for a subdomain that is taken.
pub open spec fn taken_subdomain_text(clean: Seq<char>) -> Seq<char> {
    "subdomain '"@ + clean + "' is already in use"@
}

/// The answer for a cleaned requested subdomain, given whether a live session holds it.
pub open spec fn subdomain_choice_ok(clean: Seq<char>, taken: bool, choice: SubdomainChoice) -> bool {
    if !valid_subdomain(clean) {
        choice matches SubdomainChoice::Reject(f) && is_error(f, 400, invalid_subdomain_text())
    } else if taken {
        choice matches SubdomainChoice::Reject(f) && is_error(f, 409, taken_subdomain_text(clean))
    } else {
        choice matches SubdomainChoice::Use(s) && s@ == clean
    }
}

/// Decide on a cleaned requested subdomain: used when valid and free, refused with 400 when
/// malformed, refused with 409 when another tunnel holds it.
pub fn check_requested_subdomain(clean: String, taken: bool) -> (choice: SubdomainChoice)
    ensures
        subdomain_choice_ok(clean@, taken, choice),
{
    if !is_valid_subdomain(clean.as_str()) {
        SubdomainChoice::Reject(
            TunnelFrame::error(
                400,
                String::from_str("invalid subdomain: use lowercase letters, numbers, and hyphens"),
            ),
        )
    } else if taken {
        let head = join2("subdomain '", clean.as_str());
        let message = join2(head.as_str(), "' is already in use");
        SubdomainChoice::Reject(TunnelFrame::error(409, message))
    } else {
        SubdomainChoice::Use(clean)
    }
}

/// What a requested subdomain becomes before it is checked: trimmed, then lower-cased.
pub open spec fn clean_subdomain(requested: Seq<char>) -> Seq<char> {
    spec_to_lowercase(trim_text(requested))
}

/// Resolve the subdomain of a new tunnel: a requested one is cleaned and checked against the
/// live sessions; with none requested, one is to be generated.
pub fn resolve_subdomain(requested: Option<String>, store: &SessionStore) -> (choice: SubdomainChoice)
    ensures
        match requested {
            None => choice is Generate,
            Some(r) => subdomain_choice_ok(
                clean_subdomain(r@),
                store.sessions_view().contains_key(clean_subdomain(r@)),
                choice,
            ),
        },
{
    match requested {
        None => SubdomainChoice::Generate,
        Some(r) => {
            let trimmed = trim(r.as_str());
            let clean = to_lowercase(trimmed.as_str());
            let taken = store.get_session(clean.as_str()).is_some();
            check_requested_subdomain(clean, taken)
        },
    }
}

/// `Uuid::new_v4`, as a number: a random session id.
#[verifier::external_body]
fn new_session_id() -> (id: u128) {
    uuid::Uuid::new_v4().as_u128()
}

/// A fresh session for `subdomain`, registered at `now` with `token` over the connection
/// `connection_id`.
pub fn new_session(
    subdomain: String,
    token: &str,
    connection_id: u64,
    now: u64,
    duration_secs: Option<u64>,
) -> (session: Session)
    ensures
        session.subdomain == subdomain,
        session.token_hash@ == token_hash_text(token@),
        session.connection_id == connection_id,
        session.created_at == now,
        session.last_heartbeat == now,
        session.last_request == now,
        session.request_count == 0,
        session.duration_secs == duration_secs,
        session.client_addr is None,
{
    Session {
        id: new_session_id(),
        subdomain,
        token_hash: hash_token(token),
        connection_id,
        created_at: now,
        last_heartbeat: now,
        last_request: now,
        request_count: 0,
        duration_secs,
        client_addr: None,
    }
}

/// Shared settings of the relay's request handlers.
#[derive(Debug, Clone)]
pub struct AppState {
    pub domain: String,
    pub public_url_scheme: &'static str,
    pub path_routing: bool,
}

/// The public URL of a tunnel.
pub open spec fn public_url_text(scheme: Seq<char>, domain: Seq<char>, path_routing: bool, subdomain: Seq<char>) -> Seq<char> {
    if path_routing {
        scheme + "://"@ + domain + "/t/"@ + subdomain
    } else {
        scheme + "://"@ + subdomain + "."@ + domain
    }
}

impl AppState {
    /// The handler settings for a relay configuration: public URLs use `https` when TLS is on
    /// and `http` otherwise.
    pub fn from_config(config: &RelayConfig) -> (state: Self)
        ensures
            state.domain == config.domain,
            state.public_url_scheme@ == (if config.tls_cert_path is Some && config.tls_key_path is Some {
                "https"@
            } else {
                "http"@
            }),
            state.path_routing == config.path_routing,
    {
        let scheme: &'static str = if config.tls_enabled() {
            "https"
        } else {
            "http"
        };
        AppState { domain: config.domain.clone(), public_url_scheme: scheme, path_routing: config.path_routing }
    }

    /// The public URL of the tunnel `subdomain`: `scheme://domain/t/subdomain` with path
    /// routing, `scheme://subdomain.domain` without.
    pub fn public_url(&self, subdomain: &str) -> (url: String)
        ensures
            url@ == public_url_text(self.public_url_scheme@, self.domain@, self.path_routing, subdomain@),
    {
        let base = join2(self.public_url_scheme, "://");
        if self.path_routing {
            let a = join2(base.as_str(), self.domain.as_str());
            let b = join2(a.as_str(), "/t/");
            let url = join2(b.as_str(), subdomain);
            assert(url@ =~= self.public_url_scheme@ + "://"@ + self.domain@ + "/t/"@ + subdomain@);
            url
        } else {
            let a = join2(base.as_str(), subdomain);
            let b = join2(a.as_str(), ".");
            let url = join2(b.as_str(), self.domain.as_str());
            assert(url@ =~= self.public_url_scheme@ + "://"@ + subdomain@ + "."@ + self.domain@);
            url
        }
    }

    /// The frame that confirms a registration.
    pub fn registered_frame(&self, subdomain: &str, duration_secs: Option<u64>) -> (frame: TunnelFrame)
        ensures
            frame matches TunnelFrame::Registered { subdomain: s, public_url, expires_in_secs }
                && s@ == subdomain@
                && public_url@ == public_url_text(self.public_url_scheme@, self.domain@, self.path_routing, subdomain@)
                && expires_in_secs == duration_secs,
    {
        TunnelFrame::Registered {
            subdomain: String::from_str(subdomain),
            public_url: self.public_url(subdomain),
            expires_in_secs: duration_secs,
        }
    }
}

/// `pick` is the candidate at `i`: the first that no live session holds, or the last when every
/// one is held.
pub open spec fn generated_pick(candidates: Seq<String>, sessions: Map<Seq<char>, Session>, i: int) -> bool {
    &&& 0 <= i < candidates.len()
    &&& forall|j: int| 0 <= j < i ==> sessions.contains_key(#[trigger] candidates[j]@)
    &&& (!sessions.contains_key(candidates[i]@) || i == candidates.len() - 1)
}

/// The subdomain of a tunnel that asked for none, from freshly generated candidates tried in
/// order: the first that no live session holds, else the last; `None` without candidates.
pub fn pick_generated_subdomain(candidates: Vec<String>, store: &SessionStore) -> (pick: Option<String>)
    ensures
        candidates@.len() == 0 ==> pick is None,
        candidates@.len() > 0 ==> pick is Some && exists|i: int|
            generated_pick(candidates@, store.sessions_view(), i) && #[trigger] candidates@[i]@ == pick->0@,
{
    let n = candidates.len();
    if n == 0 {
        return None;
    }
    let mut i: usize = 0;
    while i + 1 < n
        invariant
            n == candidates@.len(),
            n > 0,
            i < n,
            forall|j: int| 0 <= j < i ==> store.sessions_view().contains_key(#[trigger] candidates@[j]@),
        decreases n - i,
    {
        if store.get_session(candidates[i].as_str()).is_none() {
            let pick = crate::text::slice(candidates[i].as_str(), 0, candidates[i].as_str().unicode_len());
            assert(pick@ =~= candidates@[i as int]@);
            assert(generated_pick(candidates@, store.sessions_view(), i as int));
            return Some(pick);
        }
        i = i + 1;
    }
    let pick = crate::text::slice(candidates[i].as_str(), 0, candidates[i].as_str().unicode_len());
    assert(pick@ =~= candidates@[i as int]@);
    assert(generated_pick(candidates@, store.sessions_view(), i as int));
    Some(pick)
}

/// What becomes of an accepted registration.
#[derive(Debug)]
pub enum RegistrationOutcome {
    /// Send this error frame, then close; nothing was stored.
    Refused(TunnelFrame),
    /// The tunnel's session is stored under `subdomain`; send `reply`.
    Registered { subdomain: String, reply: TunnelFrame },
}

/// The session stored for a registration: made at `now` for `token` over `connection_id`.
pub open spec fn registered_session(
    session: Session,
    subdomain: Seq<char>,
    token: Seq<char>,
    connection_id: u64,
    now: u64,
    duration_secs: Option<u64>,
) -> bool {
    &&& session.subdomain@ == subdomain
    &&& session.token_hash@ == token_hash_text(token)
    &&& session.connection_id == connection_id
    &&& session.created_at == now
    &&& session.last_heartbeat == now
    &&& session.last_request == now
    &&& session.request_count == 0
    &&& session.duration_secs == duration_secs
    &&& session.client_addr is None
}

/// Register a tunnel whose registration was accepted: its subdomain is the requested one,
/// cleaned and checked (refused with 400 when malformed, 409 when taken), or `generated` when
/// none was requested (refused with 409 when a live session holds it, so that no session is
/// ever replaced); its session is stored, its token indexed, and the `Registered` frame
/// names its public URL and duration.
pub fn register_tunnel(
    state: &AppState,
    store: &mut SessionStore,
    token: &str,
    requested_subdomain: Option<String>,
    generated: String,
    connection_id: u64,
    now: u64,
    duration_secs: Option<u64>,
) -> (outcome: RegistrationOutcome)
    ensures
        match requested_subdomain {
            None => if old(store).sessions_view().contains_key(generated@) {
                outcome matches RegistrationOutcome::Refused(f) && is_error(f, 409, taken_subdomain_text(generated@))
            } else {
                outcome matches RegistrationOutcome::Registered { subdomain, .. } && subdomain@ == generated@
            },
            Some(r) => {
                let clean = clean_subdomain(r@);
                let taken = old(store).sessions_view().contains_key(clean);
                if !valid_subdomain(clean) {
                    outcome matches RegistrationOutcome::Refused(f) && is_error(f, 400, invalid_subdomain_text())
                } else if taken {
                    outcome matches RegistrationOutcome::Refused(f) && is_error(f, 409, taken_subdomain_text(clean))
                } else {
                    outcome matches RegistrationOutcome::Registered { subdomain, .. } && subdomain@ == clean
                }
            },
        },
        outcome is Refused ==> final(store).sessions_view() == old(store).sessions_view()
            && final(store).tokens_view() == old(store).tokens_view(),
        outcome matches RegistrationOutcome::Registered { subdomain, reply } ==> {
            &&& !old(store).sessions_view().contains_key(subdomain@)
            &&& final(store).sessions_view().contains_key(subdomain@)
            &&& registered_session(
                final(store).sessions_view()[subdomain@],
                subdomain@,
                token@,
                connection_id,
                now,
                duration_secs,
            )
            &&& final(store).sessions_view() == old(store).sessions_view().insert(
                subdomain@,
                final(store).sessions_view()[subdomain@],
            )
            &&& final(store).tokens_view() == old(store).tokens_view().insert(token_hash_text(token@), subdomain@)
            &&& reply matches TunnelFrame::Registered { subdomain: s, public_url, expires_in_secs } && s@
                == subdomain@ && public_url@ == public_url_text(
                state.public_url_scheme@,
                state.domain@,
                state.path_routing,
                subdomain@,
            ) && expires_in_secs == duration_secs
        },
{
    let subdomain = match resolve_subdomain(requested_subdomain, store) {
        SubdomainChoice::Use(s) => s,
        SubdomainChoice::Generate => {
            if store.get_session(generated.as_str()).is_some() {
                let head = join2("subdomain '", generated.as_str());
                let message = join2(head.as_str(), "' is already in use");
                return RegistrationOutcome::Refused(TunnelFrame::error(409, message));
            }
            generated
        },
        SubdomainChoice::Reject(frame) => {
            return RegistrationOutcome::Refused(frame);
        },
    };
    let session = new_session(subdomain.clone(), token, connection_id, now, duration_secs);
    store.insert_session(session);
    let reply = state.registered_frame(subdomain.as_str(), duration_secs);
    RegistrationOutcome::Registered { subdomain, reply }
}

/// A tunnel that `register_tunnel` registered is found again: `get_session` gives its session,
/// over its connection, and the hash of its token verifies for its subdomain.
pub proof fn law_registered_tunnel_is_live(
    sessions: Map<Seq<char>, Session>,
    subdomain: Seq<char>,
    token: Seq<char>,
    connection_id: u64,
    now: u64,
    duration_secs: Option<u64>,
)
    requires
        sessions.contains_key(subdomain),
        registered_session(sessions[subdomain], subdomain, token, connection_id, now, duration_secs),
    ensures
        sessions.get(subdomain) matches Some(s) && s.connection_id == connection_id,
        sessions.contains_key(subdomain) && sessions[subdomain].token_hash@ == token_hash_text(token),
        !sessions[subdomain].expired_at(now),
{
}

/// What a message from a registered client asks of the relay.
#[derive(Debug)]
pub enum SessionAction {
    /// Record a heartbeat and answer with `HeartbeatAck`.
    Heartbeat,
    /// Answer with `HeartbeatAck` (to a WebSocket ping).
    Ack,
    /// The connection is over.
    Stop,
    /// Hand a response header to the waiting request.
    DispatchHeader { request_id: u64, status: u16, headers: Vec<(String, String)> },
    /// Hand a body chunk to the waiting request.
    DispatchBody { request_id: u64, chunk: Vec<u8>, finished: bool },
    /// Pass a WebSocket frame on to the browser.
    ForwardWs { request_id: u64, data: Vec<u8>, opcode: u8 },
    /// Close the browser's WebSocket.
    CloseWs { request_id: u64 },
    /// The client reported an error (logged).
    ClientError { code: u16, message: String },
    /// Nothing to do.
    Ignore,
}

/// The action for each message a registered client may send.
pub open spec fn session_action_ok(msg: Incoming, action: SessionAction) -> bool {
    match msg {
        Incoming::Frame(f) => match f {
            TunnelFrame::Heartbeat => action is Heartbeat,
            TunnelFrame::Disconnect => action is Stop,
            TunnelFrame::HttpResponseHeader { request_id, status, headers } => action
                == (SessionAction::DispatchHeader { request_id, status, headers }),
            TunnelFrame::HttpResponseBody { request_id, chunk, finished } => action
                == (SessionAction::DispatchBody { request_id, chunk, finished }),
            TunnelFrame::WsFrame { request_id, data, opcode } => action == (SessionAction::ForwardWs {
                request_id,
                data,
                opcode,
            }),
            TunnelFrame::WsClose { request_id } => action == (SessionAction::CloseWs { request_id }),
            TunnelFrame::Error { code, message } => action == (SessionAction::ClientError {
                code,
                message,
            }),
            _ => action is Ignore,
        },
        Incoming::Undecodable(_) => action is Ignore,
        Incoming::Close => action is Stop,
        Incoming::Ping(_) => action is Ack,
        Incoming::Other => action is Ignore,
        Incoming::Failed(_) => action is Stop,
        Incoming::Ended => action is Stop,
    }
}

/// Decide on a message from a registered client.
pub fn on_session_message(msg: Incoming) -> (action: SessionAction)
    ensures
        session_action_ok(msg, action),
{
    match msg {
        Incoming::Frame(f) => match f {
            TunnelFrame::Heartbeat => SessionAction::Heartbeat,
            TunnelFrame::Disconnect => SessionAction::Stop,
            TunnelFrame::HttpResponseHeader { request_id, status, headers } => {
                SessionAction::DispatchHeader { request_id, status, headers }
            },
            TunnelFrame::HttpResponseBody { request_id, chunk, finished } => {
                SessionAction::DispatchBody { request_id, chunk, finished }
            },
            TunnelFrame::WsFrame { request_id, data, opcode } => {
                SessionAction::ForwardWs { request_id, data, opcode }
            },
            TunnelFrame::WsClose { request_id } => SessionAction::CloseWs { request_id },
            TunnelFrame::Error { code, message } => SessionAction::ClientError { code, message },
            _ => SessionAction::Ignore,
        },
        Incoming::Undecodable(_) => SessionAction::Ignore,
        Incoming::Close => SessionAction::Stop,
        Incoming::Ping(_) => SessionAction::Ack,
        Incoming::Other => SessionAction::Ignore,
        Incoming::Failed(_) => SessionAction::Stop,
        Incoming::Ended => SessionAction::Stop,
    }
}

/// What a registered client sends about a request reaches that request unchanged: a response
/// header is dispatched with the frame's own request id, status and headers, a body chunk with
/// its own bytes and end flag, and a WebSocket frame with its own data and opcode.
pub proof fn law_client_responses_pass_unchanged(
    request_id: u64,
    status: u16,
    headers: Vec<(String, String)>,
    chunk: Vec<u8>,
    finished: bool,
    opcode: u8,
    action: SessionAction,
)
    ensures
        session_action_ok(Incoming::Frame(TunnelFrame::HttpResponseHeader { request_id, status, headers }), action)
            ==> action == (SessionAction::DispatchHeader { request_id, status, headers }),
        session_action_ok(Incoming::Frame(TunnelFrame::HttpResponseBody { request_id, chunk, finished }), action)
            ==> action == (SessionAction::DispatchBody { request_id, chunk, finished }),
        session_action_ok(Incoming::Frame(TunnelFrame::WsFrame { request_id, data: chunk, opcode }), action)
            ==> action == (SessionAction::ForwardWs { request_id, data: chunk, opcode }),
        session_action_ok(Incoming::Frame(TunnelFrame::WsClose { request_id }), action) ==> action
            == (SessionAction::CloseWs { request_id }),
{
}

/// The subdomains the relay accepts are exactly the non-empty strings of at most 63 characters
/// that are ASCII letters (either case), digits or hyphens, neither beginning nor ending with a
/// hyphen.
pub proof fn law_valid_subdomain_is_ascii_label(s: Seq<char>)
    requires
        s.len() <= usize::MAX,
    ensures
        valid_subdomain(s) <==> {
            &&& 1 <= s.len() <= 63
            &&& forall|i: int|
                0 <= i < s.len() ==> ('a' <= #[trigger] s[i] <= 'z' || 'A' <= s[i] <= 'Z' || '0' <= s[i] <= '9'
                    || s[i] == '-')
            &&& s[0] != '-'
            &&& s[s.len() - 1] != '-'
        },
{
    let ascii = forall|i: int| 0 <= i < s.len() ==> ('a' <= #[trigger] s[i] <= 'z' || 'A' <= s[i] <= 'Z' || '0'
        <= s[i] <= '9' || s[i] == '-');
    if ascii {
        assert(vstd::utf8::is_ascii_chars(s));
        vstd::utf8::is_ascii_chars_encode_utf8(s);
        assert(byte_len(s) == s.len());
    }
    if valid_subdomain(s) {
        assert forall|i: int| 0 <= i < s.len() implies '\0' <= #[trigger] s[i] <= '\u{7f}' by {
            assert(subdomain_char(s[i]));
        }
        assert(vstd::utf8::is_ascii_chars(s));
        vstd::utf8::is_ascii_chars_encode_utf8(s);
    }
}

/// A registration is accepted, with its own token, subdomain and duration, exactly when it
/// speaks protocol version 1 and its token has at least 32 bytes; otherwise it is refused with
/// 426 (wrong version) or 400 (short token).
pub proof fn law_registration_checks(
    token: String,
    version: u8,
    requested_subdomain: Option<String>,
    duration_secs: Option<u64>,
    step: RegisterStep,
)
    requires
        register_step_ok(
            Incoming::Frame(TunnelFrame::Register { token, version, requested_subdomain, duration_secs }),
            step,
        ),
    ensures
        version == 1 && byte_len(token@) >= 32 ==> step == (RegisterStep::Accept {
            token,
            requested_subdomain,
            duration_secs,
        }),
        version != 1 ==> (step matches RegisterStep::Reject(f) && is_error(f, 426, "unsupported protocol version"@)),
        version == 1 && byte_len(token@) < 32 ==> (step matches RegisterStep::Reject(f) && is_error(
            f,
            400,
            "invalid token: too short"@,
        )),
{
}

/// A heartbeat is recorded and answered, a ping is answered, and a disconnect, a close or the
/// end of the connection ends the session.
pub proof fn law_session_lifecycle_messages(data: Vec<u8>, error: String, action: SessionAction)
    ensures
        session_action_ok(Incoming::Frame(TunnelFrame::Heartbeat), action) ==> action is Heartbeat,
        session_action_ok(Incoming::Ping(data), action) ==> action is Ack,
        session_action_ok(Incoming::Frame(TunnelFrame::Disconnect), action) ==> action is Stop,
        session_action_ok(Incoming::Close, action) ==> action is Stop,
        session_action_ok(Incoming::Ended, action) ==> action is Stop,
        session_action_ok(Incoming::Failed(error), action) ==> action is Stop,
{
}

} // verus!

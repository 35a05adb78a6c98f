use tunnelx::client::{
    body_chunk_frames, connect_url, end_of_body, end_to_end_headers, error_response_frames,
    generate_token, hop_by_hop_lowercase, is_hop_by_hop, local_http_url, local_ws_url, on_client_event,
    on_registration_message, relay_label, remaining_after, tunnel_duration, ClientAction,
    ClientEvent, RegistrationReply, StopNotice, DEFAULT_TUNNEL_DURATION_SECS,
};
use tunnelx::config::{TunnelError, MIN_TOKEN_LENGTH};
use tunnelx::frame::{Incoming, TunnelFrame, CHUNK_SIZE};

#[test]
fn local_relays_are_dialed_without_tls() {
    assert_eq!(connect_url("wss://localhost:8443/tunnel"), "ws://localhost:8443/tunnel");
    assert_eq!(connect_url("wss://127.0.0.1:8443/tunnel"), "ws://127.0.0.1:8443/tunnel");
    assert_eq!(connect_url("wss://relay.darsha.dev/tunnel"), "wss://relay.darsha.dev/tunnel");
    assert_eq!(connect_url("ws://localhost/tunnel"), "ws://localhost/tunnel");
}

#[test]
fn relay_label_is_host_without_scheme() {
    assert_eq!(relay_label("wss://relay.darsha.dev/tunnel"), "relay.darsha.dev");
    assert_eq!(relay_label("ws://127.0.0.1:8443/tunnel"), "127.0.0.1:8443");
    assert_eq!(relay_label("relay.example"), "relay.example");
}

#[test]
fn generated_tokens_are_long_random_hex() {
    let a = generate_token();
    let b = generate_token();
    assert_eq!(a.len(), 64);
    assert!(a.len() >= MIN_TOKEN_LENGTH);
    assert!(a.chars().all(|c| c.is_ascii_hexdigit() && !c.is_ascii_uppercase()));
    assert_ne!(a, b);
}

#[test]
fn duration_defaults_to_thirty_minutes() {
    assert_eq!(tunnel_duration(None), DEFAULT_TUNNEL_DURATION_SECS);
    assert_eq!(tunnel_duration(None), 1800);
    assert_eq!(tunnel_duration(Some(300)), 300);
}

#[test]
fn registered_reply_falls_back_to_requested_duration() {
    let frame = TunnelFrame::Registered {
        subdomain: "my-app".into(),
        public_url: "https://my-app.darsha.dev".into(),
        expires_in_secs: None,
    };
    match on_registration_message(Incoming::Frame(frame), 600) {
        RegistrationReply::Registered { subdomain, public_url, expires_in } => {
            assert_eq!(subdomain, "my-app");
            assert_eq!(public_url, "https://my-app.darsha.dev");
            assert_eq!(expires_in, 600);
        }
        other => panic!("{other:?}"),
    }
    let frame = TunnelFrame::Registered { subdomain: "x".into(), public_url: "u".into(), expires_in_secs: Some(60) };
    assert!(matches!(on_registration_message(Incoming::Frame(frame), 600), RegistrationReply::Registered { expires_in: 60, .. }));
}

#[test]
fn relay_refusal_is_reported() {
    let frame = TunnelFrame::error(409, "subdomain 'x' is already in use".into());
    match on_registration_message(Incoming::Frame(frame), 600) {
        RegistrationReply::Failed { error: TunnelError::ProtocolError(text), shown } => {
            assert!(shown);
            assert_eq!(text, "409: subdomain 'x' is already in use");
        }
        other => panic!("{other:?}"),
    }
    match on_registration_message(Incoming::Close, 600) {
        RegistrationReply::Failed { error: TunnelError::ConnectionError(text), shown } => {
            assert!(!shown);
            assert_eq!(text, "relay closed connection");
        }
        other => panic!("{other:?}"),
    }
    assert!(matches!(on_registration_message(Incoming::Ping(vec![]), 1), RegistrationReply::Wait));
    assert!(matches!(on_registration_message(Incoming::Frame(TunnelFrame::HeartbeatAck), 1), RegistrationReply::Wait));
}

#[test]
fn countdown_and_expiry() {
    assert_eq!(remaining_after(1800, 0), 1800);
    assert_eq!(remaining_after(1800, 1799), 1);
    assert_eq!(remaining_after(1800, 5000), 0);
    assert!(matches!(on_client_event(10, ClientEvent::Tick { elapsed_secs: 3 }), ClientAction::Countdown { remaining: 7 }));
    assert!(matches!(
        on_client_event(10, ClientEvent::Tick { elapsed_secs: 10 }),
        ClientAction::Stop { send_disconnect: false, notice: StopNotice::Expired }
    ));
    assert!(matches!(on_client_event(10, ClientEvent::Logged { elapsed_secs: 12 }), ClientAction::ShowLog { remaining: 0 }));
}

#[test]
fn user_and_relay_events() {
    assert!(matches!(
        on_client_event(10, ClientEvent::Shutdown),
        ClientAction::Stop { send_disconnect: true, notice: StopNotice::Nothing }
    ));
    assert!(matches!(
        on_client_event(10, ClientEvent::Key(Some('Q'))),
        ClientAction::Stop { send_disconnect: true, .. }
    ));
    assert!(matches!(on_client_event(10, ClientEvent::Key(Some('c'))), ClientAction::CopyUrl));
    assert!(matches!(on_client_event(10, ClientEvent::Key(Some('x'))), ClientAction::Ignore));
    assert!(matches!(on_client_event(10, ClientEvent::Key(None)), ClientAction::Ignore));
    assert!(matches!(
        on_client_event(10, ClientEvent::HeartbeatFailed),
        ClientAction::Stop { send_disconnect: false, notice: StopNotice::HeartbeatTimeout }
    ));
    assert!(matches!(
        on_client_event(10, ClientEvent::Relay(Incoming::Frame(TunnelFrame::Disconnect))),
        ClientAction::Stop { send_disconnect: false, notice: StopNotice::Nothing }
    ));
    assert!(matches!(on_client_event(10, ClientEvent::Relay(Incoming::Frame(TunnelFrame::HeartbeatAck))), ClientAction::AckHeartbeat));
    match on_client_event(10, ClientEvent::Relay(Incoming::Ping(vec![5]))) {
        ClientAction::Pong(d) => assert_eq!(d, vec![5]),
        other => panic!("{other:?}"),
    }
    let req = TunnelFrame::HttpRequest {
        request_id: 42,
        method: "GET".into(),
        path: "/api/users".into(),
        headers: vec![("Host".into(), "localhost".into())],
        body: vec![],
    };
    match on_client_event(10, ClientEvent::Relay(Incoming::Frame(req))) {
        ClientAction::ProxyHttp { request_id, method, path, headers, body } => {
            assert_eq!((request_id, method.as_str(), path.as_str()), (42, "GET", "/api/users"));
            assert_eq!(headers.len(), 1);
            assert!(body.is_empty());
        }
        other => panic!("{other:?}"),
    }
}

#[test]
fn hop_by_hop_headers_are_not_passed() {
    assert!(is_hop_by_hop("Connection"));
    assert!(is_hop_by_hop("transfer-encoding"));
    assert!(is_hop_by_hop("Proxy-Connection"));
    assert!(!is_hop_by_hop("Host"));
    assert!(!is_hop_by_hop("content-type"));
    let h = vec![
        ("Content-Type".to_string(), "text/plain".to_string()),
        ("Connection".to_string(), "close".to_string()),
        ("Keep-Alive".to_string(), "5".to_string()),
        ("X-A".to_string(), "1".to_string()),
    ];
    assert_eq!(
        end_to_end_headers(&h),
        vec![("Content-Type".to_string(), "text/plain".to_string()), ("X-A".to_string(), "1".to_string())]
    );
}

#[test]
fn local_urls() {
    assert_eq!(local_http_url(3000, "/hello?foo=bar"), "http://localhost:3000/hello?foo=bar");
    assert_eq!(local_ws_url(5173, "/live"), "ws://127.0.0.1:5173/live");
    assert_eq!(local_http_url(0, ""), "http://localhost:0");
}

#[test]
fn bodies_are_cut_into_chunks() {
    assert!(body_chunk_frames(1, &[]).is_empty());
    let small = body_chunk_frames(1, b"one");
    assert_eq!(small.len(), 1);
    assert!(matches!(&small[0], TunnelFrame::HttpResponseBody { request_id: 1, chunk, finished: false } if chunk == b"one"));
    let data: Vec<u8> = (0..(CHUNK_SIZE * 2 + 5)).map(|i| (i % 251) as u8).collect();
    let frames = body_chunk_frames(9, &data);
    assert_eq!(frames.len(), 3);
    let mut joined = Vec::new();
    for f in &frames {
        match f {
            TunnelFrame::HttpResponseBody { request_id: 9, chunk, finished: false } => {
                assert!(chunk.len() <= CHUNK_SIZE);
                joined.extend_from_slice(chunk);
            }
            other => panic!("{other:?}"),
        }
    }
    assert_eq!(joined, data);
    assert!(matches!(end_of_body(9), TunnelFrame::HttpResponseBody { request_id: 9, ref chunk, finished: true } if chunk.is_empty()));
}

#[test]
fn error_answer_frames() {
    let frames = error_response_frames(5, 502, "localhost:3000 is not responding");
    assert_eq!(
        frames,
        vec![
            TunnelFrame::HttpResponseHeader {
                request_id: 5,
                status: 502,
                headers: vec![("Content-Type".to_string(), "text/plain".to_string())],
            },
            TunnelFrame::HttpResponseBody {
                request_id: 5,
                chunk: b"localhost:3000 is not responding".to_vec(),
                finished: true,
            },
        ]
    );
}

#[test]
fn hop_by_hop_names_are_lower_case() {
    assert!(hop_by_hop_lowercase("proxy-connection"));
    assert!(hop_by_hop_lowercase("upgrade"));
    assert!(!hop_by_hop_lowercase("Upgrade"));
    assert!(!hop_by_hop_lowercase("content-length"));
}

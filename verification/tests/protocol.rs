use tunnelx::commands::ConfigCommands;
use tunnelx::config::{ClientConfig, RelayConfig, DEFAULT_BIND_ADDR, DEFAULT_DOMAIN, DEFAULT_RELAY_URL};
use tunnelx::frame::{TunnelFrame, PROTOCOL_VERSION};
use tunnelx::http::{HttpHeader, HttpRequest, HttpResponseHeader};
use tunnelx::pending::{next_request_id, PendingResponse, PendingTable};
use tunnelx::ws::{frame_for_ws_message, opcode_for_kind, ws_kind_for_opcode, WsKind};

#[test]
fn register_frames_carry_version_and_options() {
    assert_eq!(
        TunnelFrame::register("abc123".into()),
        TunnelFrame::Register {
            token: "abc123".into(),
            version: PROTOCOL_VERSION,
            requested_subdomain: None,
            duration_secs: None
        }
    );
    assert_eq!(
        TunnelFrame::register_with_options("tok".into(), Some("my-app".into()), Some(300)),
        TunnelFrame::Register {
            token: "tok".into(),
            version: 1,
            requested_subdomain: Some("my-app".into()),
            duration_secs: Some(300)
        }
    );
    assert_eq!(
        TunnelFrame::error(404, "no".into()),
        TunnelFrame::Error { code: 404, message: "no".into() }
    );
}

#[test]
fn header_pairs_keep_order() {
    let req = HttpRequest {
        request_id: 42,
        method: "GET".into(),
        path: "/api/users".into(),
        headers: vec![
            HttpHeader { name: "Host".into(), value: "localhost".into() },
            HttpHeader { name: "Accept".into(), value: "*/*".into() },
        ],
        body: vec![],
    };
    assert_eq!(
        req.header_pairs(),
        vec![("Host".to_string(), "localhost".to_string()), ("Accept".to_string(), "*/*".to_string())]
    );
    let resp = HttpResponseHeader { request_id: 1, status: 200, headers: vec![] };
    assert!(resp.header_pairs().is_empty());
}

#[test]
fn request_ids_count_up_and_wrap() {
    let mut counter = 5u64;
    assert_eq!(next_request_id(&mut counter), 5);
    assert_eq!(next_request_id(&mut counter), 6);
    assert_eq!(counter, 7);
    let mut top = u64::MAX;
    assert_eq!(next_request_id(&mut top), u64::MAX);
    assert_eq!(top, 0);
}

fn pending(sub: &str) -> PendingResponse {
    PendingResponse { subdomain: sub.into(), header_pending: true }
}

#[test]
fn response_header_is_delivered_once() {
    let mut table = PendingTable::new();
    table.register_pending_response(1, pending("a"));
    assert!(table.dispatch_response_header(1));
    assert!(!table.dispatch_response_header(1));
    assert!(!table.dispatch_response_header(2));
    assert!(table.dispatch_response_body(1, false));
    assert!(table.dispatch_response_body(1, true));
    assert!(!table.dispatch_response_body(1, false));
    assert!(!table.dispatch_response_header(1));
}

#[test]
fn removed_request_gets_nothing() {
    let mut table = PendingTable::new();
    table.register_pending_response(3, pending("a"));
    table.remove_pending_response(3);
    assert!(!table.dispatch_response_header(3));
    assert!(!table.dispatch_response_body(3, true));
}

#[test]
fn closing_a_tunnel_aborts_its_requests() {
    let mut table = PendingTable::new();
    table.register_pending_response(1, pending("a"));
    table.register_pending_response(2, pending("b"));
    table.register_pending_response(3, pending("a"));
    assert!(table.dispatch_response_header(3));
    let mut aborted = table.abort_pending_for_session("a");
    aborted.sort();
    assert_eq!(aborted, vec![(1, true), (3, false)]);
    assert!(!table.dispatch_response_body(1, false));
    assert!(table.dispatch_response_header(2));
    assert!(table.abort_pending_for_session("zzz").is_empty());
}

#[test]
fn websocket_kinds_round_trip() {
    for kind in [WsKind::Text, WsKind::Binary, WsKind::Close, WsKind::Ping, WsKind::Pong] {
        assert_eq!(ws_kind_for_opcode(opcode_for_kind(kind)), kind);
    }
    assert_eq!(opcode_for_kind(WsKind::Text), 1);
    assert_eq!(opcode_for_kind(WsKind::Pong), 10);
    assert_eq!(ws_kind_for_opcode(0), WsKind::Binary);
    assert_eq!(ws_kind_for_opcode(200), WsKind::Binary);
    assert_eq!(frame_for_ws_message(4, WsKind::Close, vec![1]), TunnelFrame::WsClose { request_id: 4 });
    assert_eq!(
        frame_for_ws_message(4, WsKind::Text, b"ping".to_vec()),
        TunnelFrame::WsFrame { request_id: 4, data: b"ping".to_vec(), opcode: 1 }
    );
}

#[test]
fn relay_config_defaults_and_overrides() {
    let d = RelayConfig::default();
    assert_eq!(d.bind_addr, DEFAULT_BIND_ADDR);
    assert_eq!(d.domain, DEFAULT_DOMAIN);
    assert_eq!(d.domain, "darsha.dev");
    assert_eq!(d.bind_addr, "0.0.0.0:8443");
    assert!(!d.tls_enabled());
    assert!(!d.path_routing);
    let c = RelayConfig::from_env_values(
        Some("127.0.0.1:8443".into()),
        Some("localhost".into()),
        Some("cert.pem".into()),
        None,
        Some("true".into()),
    );
    assert_eq!(c.bind_addr, "127.0.0.1:8443");
    assert_eq!(c.domain, "localhost");
    assert!(!c.tls_enabled());
    assert!(c.path_routing);
    let c = RelayConfig::from_env_values(None, None, Some("c".into()), Some("k".into()), Some("yes".into()));
    assert!(c.tls_enabled());
    assert!(!c.path_routing);
    assert_eq!(c.domain, DEFAULT_DOMAIN);
}

#[test]
fn client_config_falls_back_to_default_relay() {
    let c = ClientConfig::new(3000, None);
    assert_eq!(c.port, 3000);
    assert_eq!(c.relay_url, DEFAULT_RELAY_URL);
    assert_eq!(c.relay_url, "wss://relay.darsha.dev/tunnel");
    let c = ClientConfig::new(8080, Some("ws://127.0.0.1:8443/tunnel".into()));
    assert_eq!(c.relay_url, "ws://127.0.0.1:8443/tunnel");
}

#[test]
fn config_commands_hold_their_arguments() {
    let cmd = ConfigCommands::SetValue { key: "profile.default.relay".into(), value: "ws://x".into() };
    match cmd {
        ConfigCommands::SetValue { key, value } => {
            assert_eq!(key, "profile.default.relay");
            assert_eq!(value, "ws://x");
        }
        _ => unreachable!(),
    }
}

#[test]
fn successive_request_ids_increase() {
    let mut counter = 1u64;
    let ids: Vec<u64> = (0..100).map(|_| next_request_id(&mut counter)).collect();
    assert_eq!(ids[0], 1);
    assert!(ids.windows(2).all(|w| w[0] < w[1]));
    assert_eq!(ids[99], 100);
}

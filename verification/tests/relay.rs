use tunnelx::config::RelayConfig;
use tunnelx::crypto::hash_token;
use tunnelx::frame::{Incoming, TunnelFrame, PROTOCOL_VERSION};
use tunnelx::relay::{
    check_requested_subdomain, is_valid_subdomain, new_session, on_register_message, register_tunnel,
    RegistrationOutcome, pick_generated_subdomain,
    on_session_message, resolve_subdomain, AppState, RegisterStep, SessionAction, SubdomainChoice,
};
use tunnelx::session::SessionStore;

const LONG_TOKEN: &str = "0123456789abcdef0123456789abcdef";

fn error_of(frame: &TunnelFrame) -> (u16, String) {
    match frame {
        TunnelFrame::Error { code, message } => (*code, message.clone()),
        other => panic!("expected error frame, got {other:?}"),
    }
}

#[test]
fn registration_with_long_token_is_accepted() {
    let frame = TunnelFrame::register_with_options(LONG_TOKEN.to_string(), Some("my-app".to_string()), Some(300));
    match on_register_message(Incoming::Frame(frame)) {
        RegisterStep::Accept { token, requested_subdomain, duration_secs } => {
            assert_eq!(token, LONG_TOKEN);
            assert_eq!(requested_subdomain.as_deref(), Some("my-app"));
            assert_eq!(duration_secs, Some(300));
        }
        other => panic!("expected accept, got {other:?}"),
    }
}

#[test]
fn short_token_is_refused() {
    let frame = TunnelFrame::register("short".to_string());
    match on_register_message(Incoming::Frame(frame)) {
        RegisterStep::Reject(f) => assert_eq!(error_of(&f), (400, "invalid token: too short".to_string())),
        other => panic!("expected reject, got {other:?}"),
    }
}

#[test]
fn wrong_version_is_refused() {
    let frame = TunnelFrame::Register {
        token: LONG_TOKEN.to_string(),
        version: PROTOCOL_VERSION + 1,
        requested_subdomain: None,
        duration_secs: None,
    };
    match on_register_message(Incoming::Frame(frame)) {
        RegisterStep::Reject(f) => assert_eq!(error_of(&f), (426, "unsupported protocol version".to_string())),
        other => panic!("expected reject, got {other:?}"),
    }
}

#[test]
fn other_first_messages_wait_or_drop() {
    assert!(matches!(on_register_message(Incoming::Ping(vec![1])), RegisterStep::Wait));
    assert!(matches!(on_register_message(Incoming::Other), RegisterStep::Wait));
    assert!(matches!(on_register_message(Incoming::Frame(TunnelFrame::Heartbeat)), RegisterStep::Drop));
    assert!(matches!(on_register_message(Incoming::Close), RegisterStep::Drop));
    assert!(matches!(on_register_message(Incoming::Ended), RegisterStep::Drop));
    assert!(matches!(on_register_message(Incoming::Undecodable("bad".into())), RegisterStep::Drop));
}

#[test]
fn subdomain_validation() {
    assert!(is_valid_subdomain("my-app"));
    assert!(is_valid_subdomain("A1"));
    assert!(is_valid_subdomain(&"a".repeat(63)));
    assert!(!is_valid_subdomain(&"a".repeat(64)));
    assert!(!is_valid_subdomain(""));
    assert!(!is_valid_subdomain("-app"));
    assert!(!is_valid_subdomain("app-"));
    assert!(!is_valid_subdomain("my_app"));
    assert!(!is_valid_subdomain("my.app"));
    assert!(!is_valid_subdomain("é"));
}

#[test]
fn requested_subdomain_checks() {
    assert!(matches!(check_requested_subdomain("ok".into(), false), SubdomainChoice::Use(s) if s == "ok"));
    match check_requested_subdomain("ok".into(), true) {
        SubdomainChoice::Reject(f) => assert_eq!(error_of(&f), (409, "subdomain 'ok' is already in use".to_string())),
        other => panic!("{other:?}"),
    }
    match check_requested_subdomain("bad_name".into(), false) {
        SubdomainChoice::Reject(f) => assert_eq!(
            error_of(&f),
            (400, "invalid subdomain: use lowercase letters, numbers, and hyphens".to_string())
        ),
        other => panic!("{other:?}"),
    }
}

#[test]
fn requested_subdomain_is_cleaned_and_checked_against_sessions() {
    let mut store = SessionStore::new();
    assert!(matches!(resolve_subdomain(None, &store), SubdomainChoice::Generate));
    assert!(matches!(resolve_subdomain(Some("  My-App ".into()), &store), SubdomainChoice::Use(s) if s == "my-app"));
    store.insert_session(new_session("my-app".into(), "t", 1, 0, None));
    match resolve_subdomain(Some("MY-APP".into()), &store) {
        SubdomainChoice::Reject(f) => assert_eq!(error_of(&f).0, 409),
        other => panic!("{other:?}"),
    }
}

#[test]
fn new_session_stores_token_hash() {
    let s = new_session("a".into(), "secret", 4, 123, Some(60));
    assert_eq!(s.token_hash, hash_token("secret"));
    assert_eq!(s.connection_id, 4);
    assert_eq!((s.created_at, s.last_heartbeat, s.last_request, s.request_count), (123, 123, 123, 0));
    assert_eq!(s.duration_secs, Some(60));
    assert!(s.client_addr.is_none());
}

#[test]
fn public_urls_follow_routing_mode() {
    let mut config = RelayConfig::default();
    config.domain = "darsha.dev".into();
    let state = AppState::from_config(&config);
    assert_eq!(state.public_url("my-app"), "http://my-app.darsha.dev");
    config.tls_cert_path = Some("c".into());
    config.tls_key_path = Some("k".into());
    config.path_routing = true;
    let state = AppState::from_config(&config);
    assert_eq!(state.public_url("my-app"), "https://darsha.dev/t/my-app");
    match state.registered_frame("my-app", Some(300)) {
        TunnelFrame::Registered { subdomain, public_url, expires_in_secs } => {
            assert_eq!(subdomain, "my-app");
            assert_eq!(public_url, "https://darsha.dev/t/my-app");
            assert_eq!(expires_in_secs, Some(300));
        }
        other => panic!("{other:?}"),
    }
}

#[test]
fn session_messages_map_to_actions() {
    assert!(matches!(on_session_message(Incoming::Frame(TunnelFrame::Heartbeat)), SessionAction::Heartbeat));
    assert!(matches!(on_session_message(Incoming::Frame(TunnelFrame::Disconnect)), SessionAction::Stop));
    assert!(matches!(on_session_message(Incoming::Ping(vec![])), SessionAction::Ack));
    assert!(matches!(on_session_message(Incoming::Close), SessionAction::Stop));
    assert!(matches!(on_session_message(Incoming::Failed("x".into())), SessionAction::Stop));
    assert!(matches!(on_session_message(Incoming::Undecodable("x".into())), SessionAction::Ignore));
    match on_session_message(Incoming::Frame(TunnelFrame::HttpResponseBody { request_id: 3, chunk: vec![1, 2], finished: true })) {
        SessionAction::DispatchBody { request_id, chunk, finished } => {
            assert_eq!((request_id, chunk, finished), (3, vec![1, 2], true));
        }
        other => panic!("{other:?}"),
    }
    match on_session_message(Incoming::Frame(TunnelFrame::WsFrame { request_id: 9, data: vec![7], opcode: 1 })) {
        SessionAction::ForwardWs { request_id, data, opcode } => assert_eq!((request_id, data, opcode), (9, vec![7], 1)),
        other => panic!("{other:?}"),
    }
    assert!(matches!(
        on_session_message(Incoming::Frame(TunnelFrame::Register {
            token: String::new(),
            version: 1,
            requested_subdomain: None,
            duration_secs: None
        })),
        SessionAction::Ignore
    ));
}

fn test_state() -> AppState {
    AppState { domain: "tunnel.test".into(), public_url_scheme: "http", path_routing: false }
}

#[test]
fn requested_subdomain_is_registered() {
    let state = test_state();
    let mut store = SessionStore::new();
    match register_tunnel(&state, &mut store, LONG_TOKEN, Some(" My-App ".into()), "unused".into(), 7, 100, Some(300)) {
        RegistrationOutcome::Registered { subdomain, reply } => {
            assert_eq!(subdomain, "my-app");
            assert_eq!(
                reply,
                TunnelFrame::Registered {
                    subdomain: "my-app".into(),
                    public_url: "http://my-app.tunnel.test".into(),
                    expires_in_secs: Some(300),
                }
            );
        }
        other => panic!("{other:?}"),
    }
    let session = store.get_session("my-app").expect("stored session");
    assert_eq!((session.connection_id, session.created_at, session.duration_secs), (7, 100, Some(300)));
    assert!(store.verify_and_get_session("my-app", &hash_token(LONG_TOKEN)));
}

#[test]
fn generated_subdomain_is_used_without_request() {
    let state = test_state();
    let mut store = SessionStore::new();
    match register_tunnel(&state, &mut store, LONG_TOKEN, None, "calm-sea-42".into(), 1, 0, None) {
        RegistrationOutcome::Registered { subdomain, .. } => assert_eq!(subdomain, "calm-sea-42"),
        other => panic!("{other:?}"),
    }
    assert_eq!(store.session_count(), 1);
}

#[test]
fn taken_or_malformed_subdomain_is_refused_and_nothing_stored() {
    let state = test_state();
    let mut store = SessionStore::new();
    store.insert_session(new_session("busy".into(), "t", 1, 0, None));
    match register_tunnel(&state, &mut store, LONG_TOKEN, Some("busy".into()), "x".into(), 2, 0, None) {
        RegistrationOutcome::Refused(f) => assert_eq!(error_of(&f), (409, "subdomain 'busy' is already in use".to_string())),
        other => panic!("{other:?}"),
    }
    match register_tunnel(&state, &mut store, LONG_TOKEN, Some("no_way".into()), "x".into(), 2, 0, None) {
        RegistrationOutcome::Refused(f) => assert_eq!(error_of(&f).0, 400),
        other => panic!("{other:?}"),
    }
    assert_eq!(store.session_count(), 1);
    assert_eq!(store.get_session("busy").unwrap().connection_id, 1);
}

#[test]
fn first_free_generated_subdomain_is_picked() {
    let mut store = SessionStore::new();
    store.insert_session(new_session("calm-sea-10".into(), "t", 1, 0, None));
    store.insert_session(new_session("epic-sun-43".into(), "t", 2, 0, None));
    let c = |v: &[&str]| v.iter().map(|s| s.to_string()).collect::<Vec<String>>();
    assert_eq!(pick_generated_subdomain(c(&["calm-sea-10", "brave-owl-11", "x"]), &store), Some("brave-owl-11".into()));
    assert_eq!(pick_generated_subdomain(c(&["calm-sea-10", "epic-sun-43"]), &store), Some("epic-sun-43".into()));
    assert_eq!(pick_generated_subdomain(c(&["new-one-12"]), &store), Some("new-one-12".into()));
    assert_eq!(pick_generated_subdomain(Vec::new(), &store), None);
}

#[test]
fn taken_generated_subdomain_is_refused_not_replaced() {
    let state = test_state();
    let mut store = SessionStore::new();
    store.insert_session(new_session("calm-sea-10".into(), "t", 1, 0, None));
    match register_tunnel(&state, &mut store, LONG_TOKEN, None, "calm-sea-10".into(), 2, 0, None) {
        RegistrationOutcome::Refused(f) => {
            assert_eq!(error_of(&f), (409, "subdomain 'calm-sea-10' is already in use".to_string()))
        }
        other => panic!("{other:?}"),
    }
    assert_eq!(store.get_session("calm-sea-10").unwrap().connection_id, 1);
}

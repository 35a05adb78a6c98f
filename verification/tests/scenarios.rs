//! The relay's decisions along the paths of a tunneled request, on concrete values.

use tunnelx::pending::{PendingResponse, PendingTable};
use tunnelx::relay::{new_session, AppState};
use tunnelx::routing::{forward_request_headers, route_public_request, PublicRoute};
use tunnelx::session::SessionStore;

fn routed(route: PublicRoute) -> (String, Option<String>) {
    match route {
        PublicRoute::Tunnel { subdomain, rewrite } => (subdomain, rewrite),
        other => panic!("expected a tunnel, got {other:?}"),
    }
}

#[test]
fn host_routed_request_reaches_its_session() {
    let mut store = SessionStore::new();
    store.insert_session(new_session("quiet-river-12".into(), "t", 3, 0, None));
    let (sub, rewrite) = routed(route_public_request("/hello", None, None, "quiet-river-12.tunnel.test", "tunnel.test"));
    assert_eq!(rewrite, None);
    assert_eq!(store.get_session(&sub).unwrap().connection_id, 3);
}

#[test]
fn path_routed_request_reaches_its_session_with_rewritten_path() {
    let mut store = SessionStore::new();
    store.insert_session(new_session("quiet-river-12".into(), "t", 3, 0, None));
    let state = AppState { domain: "tunnel.test".into(), public_url_scheme: "http", path_routing: true };
    assert_eq!(state.public_url("quiet-river-12"), "http://tunnel.test/t/quiet-river-12");
    let (sub, rewrite) = routed(route_public_request("/t/quiet-river-12/hello", Some("foo=bar"), None, "tunnel.test", "tunnel.test"));
    assert_eq!(rewrite.as_deref(), Some("/hello?foo=bar"));
    assert!(store.get_session(&sub).is_some());
}

#[test]
fn post_headers_reach_the_client() {
    let headers = vec![
        ("host".to_string(), "quiet-river-12.tunnel.test".to_string()),
        ("content-type".to_string(), "application/json".to_string()),
        ("content-length".to_string(), "18".to_string()),
    ];
    assert_eq!(
        forward_request_headers(&headers, false),
        vec![
            ("content-type".to_string(), "application/json".to_string()),
            ("content-length".to_string(), "18".to_string()),
        ]
    );
}

#[test]
fn disconnected_tunnel_answers_not_found_and_releases_waiters() {
    let mut store = SessionStore::new();
    store.insert_session(new_session("gone".into(), "t", 1, 0, None));
    let mut table = PendingTable::new();
    table.register_pending_response(10, PendingResponse { subdomain: "gone".into(), header_pending: true });
    table.register_pending_response(11, PendingResponse { subdomain: "other".into(), header_pending: true });

    let aborted = table.abort_pending_for_session("gone");
    store.remove_session("gone");

    assert_eq!(aborted, vec![(10, true)]);
    let (sub, _) = routed(route_public_request("/", None, None, "gone.tunnel.test", "tunnel.test"));
    assert!(store.get_session(&sub).is_none());
    assert!(table.dispatch_response_header(11));
}

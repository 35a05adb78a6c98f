use tunnelx::routing::{relay_answer, RelayAnswer};
use tunnelx::routing::{
    dropped_header_name, extract_subdomain, forward_request_headers, is_websocket_upgrade, response_status,
    route_public_request, select_response_headers, subdomain_from_referer,
    subdomain_from_tunnel_path, PublicRoute,
};

fn pairs(items: &[(&str, &str)]) -> Vec<(String, String)> {
    items.iter().map(|(n, v)| (n.to_string(), v.to_string())).collect()
}

#[test]
fn extracts_subdomain_from_path_routed_referer() {
    assert_eq!(
        subdomain_from_referer("https://tunnelx.darsha.dev/t/arctic-bamboo-49/"),
        Some("arctic-bamboo-49".to_string())
    );
    assert_eq!(
        subdomain_from_referer("https://tunnelx.darsha.dev/t/epic-sun-43/some/page"),
        Some("epic-sun-43".to_string())
    );
}

#[test]
fn ignores_referer_without_tunnel_prefix() {
    assert_eq!(subdomain_from_referer("https://tunnelx.darsha.dev/"), None);
    assert_eq!(subdomain_from_referer("https://example.com/t/"), None);
    assert_eq!(subdomain_from_referer("not a url"), None);
}

#[test]
fn referer_without_trailing_slash_still_names_tunnel() {
    assert_eq!(
        subdomain_from_referer("https://tunnelx.darsha.dev/t/calm-sea-7"),
        Some("calm-sea-7".to_string())
    );
    assert_eq!(subdomain_from_referer("/t/local-page/x"), Some("local-page".to_string()));
}

#[test]
fn extracts_subdomain_from_host() {
    assert_eq!(extract_subdomain("my-app.darsha.dev", "darsha.dev"), Some("my-app".to_string()));
    assert_eq!(extract_subdomain("my-app.localhost:8443", "localhost"), Some("my-app".to_string()));
    assert_eq!(extract_subdomain("a.b.darsha.dev", "darsha.dev"), Some("a.b".to_string()));
}

#[test]
fn host_without_tunnel_is_refused() {
    assert_eq!(extract_subdomain("darsha.dev", "darsha.dev"), None);
    assert_eq!(extract_subdomain(".darsha.dev", "darsha.dev"), None);
    assert_eq!(extract_subdomain("relay.darsha.dev", "darsha.dev"), None);
    assert_eq!(extract_subdomain("my-app.example.com", "darsha.dev"), None);
    assert_eq!(extract_subdomain("", "darsha.dev"), None);
}

#[test]
fn tunnel_path_names_its_subdomain() {
    assert_eq!(subdomain_from_tunnel_path("/t/abc/def"), Some("abc".to_string()));
    assert_eq!(subdomain_from_tunnel_path("/t/abc"), Some("abc".to_string()));
    assert_eq!(subdomain_from_tunnel_path("/t/"), None);
    assert_eq!(subdomain_from_tunnel_path("/t//x"), None);
    assert_eq!(subdomain_from_tunnel_path("/x/abc"), None);
}

fn tunnel(route: &PublicRoute) -> Option<(String, Option<String>)> {
    match route {
        PublicRoute::Tunnel { subdomain, rewrite } => Some((subdomain.clone(), rewrite.clone())),
        _ => None,
    }
}

#[test]
fn bare_tunnel_path_is_redirected_with_query() {
    match route_public_request("/t/my-app", Some("a=1"), None, "x", "darsha.dev") {
        PublicRoute::Redirect(loc) => assert_eq!(loc, "/t/my-app/?a=1"),
        other => panic!("expected redirect, got {other:?}"),
    }
    match route_public_request("/t/my-app", None, None, "x", "darsha.dev") {
        PublicRoute::Redirect(loc) => assert_eq!(loc, "/t/my-app/"),
        other => panic!("expected redirect, got {other:?}"),
    }
}

#[test]
fn tunnel_path_is_rewritten() {
    let r = route_public_request("/t/my-app/hello", Some("foo=bar"), None, "", "darsha.dev");
    assert_eq!(tunnel(&r), Some(("my-app".to_string(), Some("/hello?foo=bar".to_string()))));
    let r = route_public_request("/t/my-app/", None, None, "", "darsha.dev");
    assert_eq!(tunnel(&r), Some(("my-app".to_string(), Some("/".to_string()))));
    let r = route_public_request("/t/my-app/a/b/", None, Some("https://d/t/other/"), "x.darsha.dev", "darsha.dev");
    assert_eq!(tunnel(&r), Some(("my-app".to_string(), Some("/a/b/".to_string()))));
}

#[test]
fn asset_path_follows_referer_then_host() {
    let r = route_public_request(
        "/@vite/client",
        None,
        Some("https://tunnelx.darsha.dev/t/arctic-bamboo-49/"),
        "tunnelx.darsha.dev",
        "darsha.dev",
    );
    assert_eq!(tunnel(&r), Some(("arctic-bamboo-49".to_string(), None)));
    let r = route_public_request("/style.css", None, Some("https://x/"), "my-app.darsha.dev", "darsha.dev");
    assert_eq!(tunnel(&r), Some(("my-app".to_string(), None)));
    let r = route_public_request("/", None, None, "darsha.dev", "darsha.dev");
    assert!(matches!(r, PublicRoute::NotFound));
}

#[test]
fn empty_tunnel_segment_ignores_referer() {
    let r = route_public_request("/t/", None, Some("https://d/t/abc/"), "host-app.d", "d");
    assert_eq!(tunnel(&r), Some(("host-app".to_string(), None)));
    let r = route_public_request("/t/", None, Some("https://d/t/abc/"), "d", "d");
    assert!(matches!(r, PublicRoute::NotFound));
}

#[test]
fn websocket_upgrade_is_case_insensitive() {
    assert!(is_websocket_upgrade(Some("websocket")));
    assert!(is_websocket_upgrade(Some("WebSocket")));
    assert!(!is_websocket_upgrade(Some("h2c")));
    assert!(!is_websocket_upgrade(None));
}

#[test]
fn forwarded_headers_drop_hop_by_hop() {
    let h = pairs(&[
        ("Host", "a.d"),
        ("Accept", "*/*"),
        ("Connection", "keep-alive"),
        ("Transfer-Encoding", "chunked"),
        ("Upgrade", "websocket"),
        ("Keep-Alive", "5"),
        ("Sec-WebSocket-Key", "k"),
        ("X-Test", "1"),
    ]);
    assert_eq!(
        forward_request_headers(&h, false),
        pairs(&[("Accept", "*/*"), ("Sec-WebSocket-Key", "k"), ("X-Test", "1")])
    );
    assert_eq!(
        forward_request_headers(&h, true),
        pairs(&[("Accept", "*/*"), ("Transfer-Encoding", "chunked"), ("Keep-Alive", "5"), ("X-Test", "1")])
    );
}

#[test]
fn forwarded_headers_are_capped() {
    let mut h = Vec::new();
    for i in 0..200 {
        h.push((format!("x-{i}"), i.to_string()));
    }
    let out = forward_request_headers(&h, false);
    assert_eq!(out.len(), 128);
    assert_eq!(out[0].0, "x-0");
    assert_eq!(out[127].0, "x-127");
}

#[test]
fn oversized_response_headers_are_dropped() {
    let long_name = "n".repeat(257);
    let long_value = "v".repeat(8193);
    let h = vec![
        ("ok".to_string(), "1".to_string()),
        (long_name.clone(), "1".to_string()),
        ("n".repeat(256), "v".repeat(8192)),
        ("big".to_string(), long_value),
    ];
    let out = select_response_headers(&h);
    assert_eq!(out, vec![("ok".to_string(), "1".to_string()), ("n".repeat(256), "v".repeat(8192))]);
}

#[test]
fn invalid_status_becomes_bad_gateway() {
    assert_eq!(response_status(200), 200);
    assert_eq!(response_status(100), 100);
    assert_eq!(response_status(999), 999);
    assert_eq!(response_status(99), 502);
    assert_eq!(response_status(1000), 502);
    assert_eq!(response_status(0), 502);
}

#[test]
fn dropped_header_names_depend_on_upgrade() {
    assert!(dropped_header_name("host", false));
    assert!(dropped_header_name("keep-alive", false));
    assert!(!dropped_header_name("keep-alive", true));
    assert!(dropped_header_name("sec-websocket-key", true));
    assert!(!dropped_header_name("sec-websocket-key", false));
    assert!(!dropped_header_name("Host", false));
    assert!(!dropped_header_name("accept", true));
}

#[test]
fn relay_answers_of_its_own() {
    assert_eq!(relay_answer(RelayAnswer::NoTunnelNamed), (404, "invalid host or path-based tunnel"));
    assert_eq!(relay_answer(RelayAnswer::TunnelNotFound), (404, "tunnel not found"));
    assert_eq!(relay_answer(RelayAnswer::BodyTooLarge), (413, "body too large"));
    assert_eq!(relay_answer(RelayAnswer::ClientDisconnected), (503, "tunnel client disconnected"));
    assert_eq!(relay_answer(RelayAnswer::LocalhostUnavailable), (502, "localhost unavailable"));
}

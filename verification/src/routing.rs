//! How the relay finds the tunnel of a public request, and what it forwards of it.
use vstd::prelude::*;
use crate::config::{opt_text, MAX_HEADERS_PER_REQUEST, MAX_HEADER_NAME_LEN, MAX_HEADER_VALUE_LEN};
use crate::relay::{public_url_text, subdomain_char, subdomain_choice_ok, valid_subdomain, SubdomainChoice};
use crate::text::{
    byte_len, ends_with, eq_ascii_fold, eq_ignore_ascii_case, first_index_of, index_of_char, is_prefix,
    is_suffix, join2, same_text, slice, spec_to_lowercase, starts_with, to_lowercase,
};

verus! {

/// The host without its port: what comes before the first `:`.
pub open spec fn host_part(host: Seq<char>) -> Seq<char> {
    match first_index_of(host, ':') {
        Some(i) => host.take(i),
        None => host,
    }
}

/// The tunnel subdomain named by a `Host` header under `domain`: the part before
/// `.domain`, when it is neither empty nor `relay`.
pub open spec fn subdomain_of_host(host: Seq<char>, domain: Seq<char>) -> Option<Seq<char>> {
    let h = host_part(host);
    let suffix = "."@ + domain;
    if is_suffix(suffix, h) {
        let sub = h.take(h.len() - suffix.len());
        if sub.len() > 0 && sub != "relay"@ {
            Some(sub)
        } else {
            None
        }
    } else {
        None
    }
}

/// The tunnel subdomain named by a `Host` header, if any.
pub fn extract_subdomain(host: &str, domain: &str) -> (sub: Option<String>)
    ensures
        opt_text(sub) == subdomain_of_host(host@, domain@),
{
    let h = match index_of_char(host, ':') {
        Some(i) => slice(host, 0, i),
        None => slice(host, 0, host.unicode_len()),
    };
    assert(h@ =~= host_part(host@)) by {
        assert(host@.take(host@.len() as int) =~= host@);
    }
    let suffix = join2(".", domain);
    if ends_with(h.as_str(), suffix.as_str()) {
        let hl = h.as_str().unicode_len();
        let sl = suffix.as_str().unicode_len();
        let sub = slice(h.as_str(), 0, hl - sl);
        assert(sub@ =~= h@.take(h@.len() - suffix@.len()));
        if !sub.as_str().is_empty() && !same_text(sub.as_str(), "relay") {
            Some(sub)
        } else {
            None
        }
    } else {
        None
    }
}

/// What follows `/t/` in a path.
pub open spec fn after_tunnel_prefix(p: Seq<char>) -> Seq<char> {
    p.skip("/t/"@.len() as int)
}

/// The length of the first segment of `r` (up to its first `/`).
pub open spec fn segment_len(r: Seq<char>) -> int {
    match first_index_of(r, '/') {
        Some(i) => i,
        None => r.len() as int,
    }
}

/// The tunnel named by a path-routed path `/t/<subdomain>/...`, when the segment is not empty.
pub open spec fn tunnel_subdomain(p: Seq<char>) -> Option<Seq<char>> {
    if is_prefix("/t/"@, p) {
        let r = after_tunnel_prefix(p);
        let s = r.take(segment_len(r));
        if s.len() > 0 {
            Some(s)
        } else {
            None
        }
    } else {
        None
    }
}

/// What follows `/t/<subdomain>/` in a path-routed path; `None` when no `/` follows the
/// subdomain.
pub open spec fn tunnel_remainder(p: Seq<char>) -> Option<Seq<char>> {
    let r = after_tunnel_prefix(p);
    match first_index_of(r, '/') {
        Some(i) => Some(r.skip(i + 1)),
        None => None,
    }
}

/// The subdomain and remainder of a path-routed path.
fn tunnel_path_parts(path: &str) -> (parts: Option<(String, Option<String>)>)
    ensures
        match parts {
            Some((sub, rest)) => tunnel_subdomain(path@) == Some(sub@) && opt_text(rest)
                == tunnel_remainder(path@),
            None => tunnel_subdomain(path@) is None,
        },
{
    if !starts_with(path, "/t/") {
        return None;
    }
    let k = "/t/".unicode_len();
    let n = path.unicode_len();
    let r = slice(path, k, n);
    assert(r@ =~= after_tunnel_prefix(path@));
    let rn = r.as_str().unicode_len();
    match index_of_char(r.as_str(), '/') {
        Some(i) => {
            let sub = slice(r.as_str(), 0, i);
            if sub.as_str().is_empty() {
                None
            } else {
                let rest = slice(r.as_str(), i + 1, rn);
                assert(rest@ =~= r@.skip(i + 1));
                Some((sub, Some(rest)))
            }
        },
        None => {
            let sub = slice(r.as_str(), 0, rn);
            assert(sub@ =~= r@.take(r@.len() as int));
            if sub.as_str().is_empty() {
                None
            } else {
                Some((sub, None))
            }
        },
    }
}

/// The tunnel subdomain named by a path of the form `/t/<subdomain>/...`.
pub fn subdomain_from_tunnel_path(path: &str) -> (sub: Option<String>)
    ensures
        opt_text(sub) == tunnel_subdomain(path@),
{
    match tunnel_path_parts(path) {
        Some((sub, _)) => Some(sub),
        None => None,
    }
}

/// The path of a URI, as `axum::http::Uri` parses it; `None` where the text is no URI.
pub uninterp spec fn spec_uri_path(text: Seq<char>) -> Option<Seq<char>>;

/// Parse `text` as an `axum::http::Uri` (`str::parse`) and take its path (`Uri::path`).
#[verifier::external_body]
fn uri_path(text: &str) -> (path: Option<String>)
    ensures
        opt_text(path) == spec_uri_path(text@),
{
    match text.parse::<axum::http::Uri>() {
        Ok(uri) => Some(uri.path().to_string()),
        Err(_) => None,
    }
}

/// The tunnel named by a `Referer` header: the one its path routes to.
pub open spec fn referer_subdomain(referer: Seq<char>) -> Option<Seq<char>> {
    match spec_uri_path(referer) {
        Some(p) => tunnel_subdomain(p),
        None => None,
    }
}

/// Extract the tunnel subdomain from a Referer header value: pages served through path routing
/// (`https://host/t/<subdomain>/...`) load absolute-path assets whose requests lack the prefix,
/// but whose Referer still carries it.
pub fn subdomain_from_referer(referer: &str) -> (sub: Option<String>)
    ensures
        opt_text(sub) == referer_subdomain(referer@),
{
    match uri_path(referer) {
        Some(p) => subdomain_from_tunnel_path(p.as_str()),
        None => None,
    }
}

/// How the relay answers a public request.
#[derive(Debug)]
pub enum PublicRoute {
    /// Redirect to this location.
    Redirect(String),
    /// Forward to the tunnel `subdomain`, with the request URI rewritten when `rewrite` is set.
    Tunnel { subdomain: String, rewrite: Option<String> },
    /// No tunnel is named: answer 404.
    NotFound,
}

/// `?query`, or nothing without a query.
pub open spec fn query_suffix(query: Option<Seq<char>>) -> Seq<char> {
    match query {
        Some(q) => "?"@ + q,
        None => seq![],
    }
}

/// The route of a public request, by its path, query, `Referer` and `Host`.
pub open spec fn route_ok(
    path: Seq<char>,
    query: Option<Seq<char>>,
    referer: Option<Seq<char>>,
    host: Seq<char>,
    domain: Seq<char>,
    route: PublicRoute,
) -> bool {
    if tunnel_subdomain(path) is Some {
        let sub = tunnel_subdomain(path)->0;
        match tunnel_remainder(path) {
            None => route matches PublicRoute::Redirect(loc) && loc@ == path + "/"@ + query_suffix(query),
            Some(rest) => route matches PublicRoute::Tunnel { subdomain, rewrite }
                && subdomain@ == sub && rewrite is Some && rewrite->0@ == "/"@ + rest + query_suffix(query),
        }
    } else {
        let from_referer = if is_prefix("/t/"@, path) {
            None
        } else {
            match referer {
                Some(r) => referer_subdomain(r),
                None => None,
            }
        };
        match from_referer {
            Some(sub) => route matches PublicRoute::Tunnel { subdomain, rewrite } && subdomain@ == sub
                && rewrite is None,
            None => match subdomain_of_host(host, domain) {
                Some(sub) => route matches PublicRoute::Tunnel { subdomain, rewrite } && subdomain@ == sub
                    && rewrite is None,
                None => route is NotFound,
            },
        }
    }
}

/// Find the tunnel of a public request.  A path `/t/<subdomain>` is redirected to
/// `/t/<subdomain>/`; a path `/t/<subdomain>/<rest>` goes to that tunnel as `/<rest>`.  Other
/// paths go to the tunnel named by the `Referer`'s path, else to the one named by the `Host`.
pub fn route_public_request(
    path: &str,
    query: Option<&str>,
    referer: Option<&str>,
    host: &str,
    domain: &str,
) -> (route: PublicRoute)
    ensures
        route_ok(
            path@,
            match query {
                Some(q) => Some(q@),
                None => None,
            },
            match referer {
                Some(r) => Some(r@),
                None => None,
            },
            host@,
            domain@,
            route,
        ),
{
    let suffix = match query {
        Some(q) => join2("?", q),
        None => String::new(),
    };
    let ghost qv = match query {
        Some(q) => Some(q@),
        None => None::<Seq<char>>,
    };
    assert(suffix@ == query_suffix(qv));
    match tunnel_path_parts(path) {
        Some((sub, rest)) => match rest {
            None => {
                let a = join2(path, "/");
                let loc = join2(a.as_str(), suffix.as_str());
                assert(loc@ =~= path@ + "/"@ + query_suffix(qv));
                PublicRoute::Redirect(loc)
            },
            Some(r) => {
                let a = join2("/", r.as_str());
                let rw = join2(a.as_str(), suffix.as_str());
                assert(rw@ =~= "/"@ + r@ + query_suffix(qv));
                PublicRoute::Tunnel { subdomain: sub, rewrite: Some(rw) }
            },
        },
        None => {
            let from_referer = if starts_with(path, "/t/") {
                None
            } else {
                match referer {
                    Some(r) => subdomain_from_referer(r),
                    None => None,
                }
            };
            match from_referer {
                Some(sub) => PublicRoute::Tunnel { subdomain: sub, rewrite: None },
                None => match extract_subdomain(host, domain) {
                    Some(sub) => PublicRoute::Tunnel { subdomain: sub, rewrite: None },
                    None => PublicRoute::NotFound,
                },
            }
        },
    }
}

/// Why the relay answers a public request itself instead of the tunnel client.
#[derive(Debug, Clone, Copy, PartialEq, Eq)]
pub enum RelayAnswer {
    /// No tunnel is named by the path, the `Referer` or the `Host`.
    NoTunnelNamed,
    /// The named tunnel has no session.
    TunnelNotFound,
    /// The request body is larger than `MAX_BODY_SIZE`.
    BodyTooLarge,
    /// The tunnel client went away before answering.
    ClientDisconnected,
    /// No response header came back from the tunnel client in time.
    LocalhostUnavailable,
}

/// The status and text of each answer of the relay's own.
pub open spec fn answer_of(answer: RelayAnswer) -> (u16, Seq<char>) {
    match answer {
        RelayAnswer::NoTunnelNamed => (404, "invalid host or path-based tunnel"@),
        RelayAnswer::TunnelNotFound => (404, "tunnel not found"@),
        RelayAnswer::BodyTooLarge => (413, "body too large"@),
        RelayAnswer::ClientDisconnected => (503, "tunnel client disconnected"@),
        RelayAnswer::LocalhostUnavailable => (502, "localhost unavailable"@),
    }
}

/// The status and text the relay answers with.
pub fn relay_answer(answer: RelayAnswer) -> (res: (u16, &'static str))
    ensures
        res.0 == answer_of(answer).0,
        res.1@ == answer_of(answer).1,
{
    match answer {
        RelayAnswer::NoTunnelNamed => (404, "invalid host or path-based tunnel"),
        RelayAnswer::TunnelNotFound => (404, "tunnel not found"),
        RelayAnswer::BodyTooLarge => (413, "body too large"),
        RelayAnswer::ClientDisconnected => (503, "tunnel client disconnected"),
        RelayAnswer::LocalhostUnavailable => (502, "localhost unavailable"),
    }
}

/// Whether an `Upgrade` header value asks for a WebSocket (`websocket`, any ASCII case).
pub fn is_websocket_upgrade(upgrade: Option<&str>) -> (ws: bool)
    ensures
        ws == (upgrade is Some && eq_ascii_fold(upgrade->0@, "websocket"@)),
{
    match upgrade {
        Some(v) => eq_ignore_ascii_case(v, "websocket"),
        None => false,
    }
}

pub(crate) proof fn lemma_filter_step(s: Seq<(String, String)>, i: int, p: spec_fn((String, String)) -> bool)
    requires
        0 <= i < s.len(),
    ensures
        s.take(i + 1).filter(p) == (if p(s[i]) {
            s.take(i).filter(p).push(s[i])
        } else {
            s.take(i).filter(p)
        }),
{
    reveal_with_fuel(Seq::<_>::filter, 1);
    assert(s.take(i + 1).drop_last() =~= s.take(i));
}

/// A request header the relay does not forward, by its lower-cased name: hop-by-hop headers,
/// and for WebSocket upgrades the handshake headers.
pub open spec fn header_dropped(lname: Seq<char>, websocket: bool) -> bool {
    if websocket {
        lname == "host"@ || lname == "connection"@ || lname == "upgrade"@ || lname == "sec-websocket-key"@
            || lname == "sec-websocket-version"@ || lname == "sec-websocket-extensions"@
    } else {
        lname == "host"@ || lname == "connection"@ || lname == "transfer-encoding"@ || lname == "upgrade"@
            || lname == "keep-alive"@
    }
}

/// The first `MAX_HEADERS_PER_REQUEST` elements of `s`.
pub open spec fn at_most_max_headers<A>(s: Seq<A>) -> Seq<A> {
    if s.len() <= MAX_HEADERS_PER_REQUEST {
        s
    } else {
        s.take(MAX_HEADERS_PER_REQUEST as int)
    }
}

/// The headers forwarded to the tunnel client: those not dropped, at most
/// `MAX_HEADERS_PER_REQUEST` of them, in order.
pub open spec fn forwarded_headers(headers: Seq<(String, String)>, websocket: bool) -> Seq<(String, String)> {
    at_most_max_headers(
        headers.filter(|h: (String, String)| !header_dropped(spec_to_lowercase(h.0@), websocket)),
    )
}

/// Whether a request header, by its lower-cased name, is one the relay does not forward.
pub fn dropped_header_name(lname: &str, websocket: bool) -> (dropped: bool)
    ensures
        dropped == header_dropped(lname@, websocket),
{
    if websocket {
        same_text(lname, "host") || same_text(lname, "connection") || same_text(lname, "upgrade")
            || same_text(lname, "sec-websocket-key") || same_text(lname, "sec-websocket-version")
            || same_text(lname, "sec-websocket-extensions")
    } else {
        same_text(lname, "host") || same_text(lname, "connection") || same_text(lname, "transfer-encoding")
            || same_text(lname, "upgrade") || same_text(lname, "keep-alive")
    }
}

fn is_dropped_header(name: &str, websocket: bool) -> (dropped: bool)
    ensures
        dropped == header_dropped(spec_to_lowercase(name@), websocket),
{
    let l = to_lowercase(name);
    dropped_header_name(l.as_str(), websocket)
}

/// The request headers forwarded to the tunnel client, from the `(name, value)` pairs whose
/// values are text; `websocket` selects the header set of a WebSocket upgrade.
pub fn forward_request_headers(headers: &Vec<(String, String)>, websocket: bool) -> (out: Vec<(String, String)>)
    ensures
        out@ == forwarded_headers(headers@, websocket),
{
    let ghost keep = |h: (String, String)| !header_dropped(spec_to_lowercase(h.0@), websocket);
    let mut out: Vec<(String, String)> = Vec::new();
    let ghost all = headers@;
    let mut i: usize = 0;
    let n = headers.len();
    assert(all.take(0) =~= Seq::<(String, String)>::empty());
    proof {
        reveal_with_fuel(Seq::<_>::filter, 1);
    }
    while i < n
        invariant
            n == all.len(),
            i <= n,
            headers@ == all,
            out@ == at_most_max_headers(all.take(i as int).filter(keep)),
            keep == (|h: (String, String)| !header_dropped(spec_to_lowercase(h.0@), websocket)),
            out@.len() <= MAX_HEADERS_PER_REQUEST,
        decreases n - i,
    {
        let ghost before = all.take(i as int).filter(keep);
        let h = (headers[i].0.clone(), headers[i].1.clone());
        proof {
            assert(h == all[i as int]);
            reveal_with_fuel(Seq::<_>::filter, 1);
            assert(all.take(i + 1).drop_last() =~= all.take(i as int));
            assert(all.take(i + 1).last() == h);
        }
        assert(keep(all[i as int]) == !header_dropped(spec_to_lowercase(h.0@), websocket));
        if !is_dropped_header(h.0.as_str(), websocket) {
            if out.len() < MAX_HEADERS_PER_REQUEST {
                out.push(h);
            }
            proof {
                lemma_filter_step(all, i as int, keep);
                if before.len() >= MAX_HEADERS_PER_REQUEST {
                    assert(before.push(h).take(MAX_HEADERS_PER_REQUEST as int) =~= before.take(
                        MAX_HEADERS_PER_REQUEST as int,
                    ));
                }
            }
        } else {
            proof {
                lemma_filter_step(all, i as int, keep);
            }
        }
        i = i + 1;
    }
    assert(all.take(n as int) =~= all);
    out
}

/// A response header the relay passes to the browser: name at most `MAX_HEADER_NAME_LEN`
/// bytes, value at most `MAX_HEADER_VALUE_LEN` bytes.
pub open spec fn header_within_limits(h: (String, String)) -> bool {
    byte_len(h.0@) <= MAX_HEADER_NAME_LEN && byte_len(h.1@) <= MAX_HEADER_VALUE_LEN
}

/// The response headers the browser gets: those within the size limits, in order.
pub open spec fn passed_response_headers(headers: Seq<(String, String)>) -> Seq<(String, String)> {
    headers.filter(|h: (String, String)| header_within_limits(h))
}

/// The response headers within the size limits, in order; oversized ones are dropped.
pub fn select_response_headers(headers: &Vec<(String, String)>) -> (out: Vec<(String, String)>)
    ensures
        out@ == passed_response_headers(headers@),
{
    let ghost keep = |h: (String, String)| header_within_limits(h);
    let mut out: Vec<(String, String)> = Vec::new();
    let ghost all = headers@;
    let n = headers.len();
    let mut i: usize = 0;
    assert(all.take(0) =~= Seq::<(String, String)>::empty());
    proof {
        reveal_with_fuel(Seq::<_>::filter, 1);
    }
    while i < n
        invariant
            n == all.len(),
            i <= n,
            headers@ == all,
            out@ == all.take(i as int).filter(keep),
            keep == (|h: (String, String)| header_within_limits(h)),
        decreases n - i,
    {
        let h = (headers[i].0.clone(), headers[i].1.clone());
        proof {
            assert(h == all[i as int]);
            reveal_with_fuel(Seq::<_>::filter, 1);
            assert(all.take(i + 1).drop_last() =~= all.take(i as int));
            assert(all.take(i + 1).last() == h);
        }
        let ghost before = all.take(i as int).filter(keep);
        assert(keep(all[i as int]) == header_within_limits(h));
        if h.0.as_str().len() <= MAX_HEADER_NAME_LEN && h.1.as_str().len() <= MAX_HEADER_VALUE_LEN {
            out.push(h);
            proof {
                lemma_filter_step(all, i as int, keep);
            }
        } else {
            proof {
                lemma_filter_step(all, i as int, keep);
            }
        }
        i = i + 1;
    }
    assert(all.take(n as int) =~= all);
    out
}

/// The status the browser gets: the tunnel client's status when it is a valid HTTP status code
/// (100 to 999), 502 otherwise.
pub fn response_status(status: u16) -> (code: u16)
    ensures
        code == (if 100 <= status <= 999 { status } else { 502 }),
{
    if 100 <= status && status <= 999 {
        status
    } else {
        502
    }
}


proof fn lemma_no_index(a: Seq<char>, c: char)
    requires
        forall|i: int| 0 <= i < a.len() ==> a[i] != c,
    ensures
        first_index_of(a, c) is None,
{
}

proof fn lemma_first_index_after(a: Seq<char>, c: char, p: Seq<char>)
    requires
        forall|i: int| 0 <= i < a.len() ==> a[i] != c,
    ensures
        first_index_of(a + seq![c] + p, c) == Some(a.len() as int),
{
    let s = a + seq![c] + p;
    let w = a.len() as int;
    assert(s[w] == c);
    assert(forall|j: int| 0 <= j < w ==> s[j] == a[j]);
    assert(0 <= w < s.len() && s[w] == c && forall|j: int| 0 <= j < w ==> s[j] != c);
    let i = choose|i: int| 0 <= i < s.len() && s[i] == c && forall|j: int| 0 <= j < i ==> s[j] != c;
    if i < w {
        assert(s[i] == a[i]);
    }
}

/// A host-routed public URL leads back to its tunnel: the `Host` `<sub>.<domain>`, with or
/// without a port, names the tunnel `sub`, for every valid subdomain but `relay`.
pub proof fn law_host_routes_to_tunnel(sub: Seq<char>, domain: Seq<char>, port: Seq<char>)
    requires
        valid_subdomain(sub),
        sub != "relay"@,
        forall|i: int| 0 <= i < domain.len() ==> domain[i] != ':',
    ensures
        subdomain_of_host(sub + "."@ + domain, domain) == Some(sub),
        subdomain_of_host(sub + "."@ + domain + ":"@ + port, domain) == Some(sub),
{
    reveal_strlit(".");
    reveal_strlit(":");
    let a = sub + "."@ + domain;
    let suffix = "."@ + domain;
    assert forall|i: int| 0 <= i < a.len() implies a[i] != ':' by {
        if i < sub.len() {
            assert(subdomain_char(sub[i]));
        } else if i > sub.len() {
            assert(a[i] == domain[i - sub.len() - 1]);
        }
    }
    lemma_no_index(a, ':');
    assert(host_part(a) == a);
    assert(":"@ =~= seq![':']);
    lemma_first_index_after(a, ':', port);
    assert(host_part(a + ":"@ + port) =~= a);
    assert(a.subrange(a.len() - suffix.len(), a.len() as int) =~= suffix);
    assert(a.take(a.len() - suffix.len()) =~= sub);
}

proof fn lemma_bare_tunnel_path(sub: Seq<char>)
    requires
        sub.len() > 0,
        forall|i: int| 0 <= i < sub.len() ==> sub[i] != '/',
    ensures
        tunnel_subdomain("/t/"@ + sub) == Some(sub),
        tunnel_remainder("/t/"@ + sub) is None,
{
    reveal_strlit("/t/");
    let p1 = "/t/"@ + sub;
    assert(p1.subrange(0, 3) =~= "/t/"@);
    assert(after_tunnel_prefix(p1) =~= sub);
    lemma_no_index(sub, '/');
    assert(sub.take(sub.len() as int) =~= sub);
}

proof fn lemma_tunnel_path(sub: Seq<char>, rest: Seq<char>)
    requires
        sub.len() > 0,
        forall|i: int| 0 <= i < sub.len() ==> sub[i] != '/',
    ensures
        tunnel_subdomain("/t/"@ + sub + "/"@ + rest) == Some(sub),
        tunnel_remainder("/t/"@ + sub + "/"@ + rest) == Some(rest),
{
    reveal_strlit("/t/");
    reveal_strlit("/");
    let p2 = "/t/"@ + sub + "/"@ + rest;
    let r = sub + seq!['/'] + rest;
    assert(p2.subrange(0, 3) =~= "/t/"@);
    assert(after_tunnel_prefix(p2) =~= r);
    lemma_first_index_after(sub, '/', rest);
    assert(segment_len(r) == sub.len());
    assert(r.take(sub.len() as int) =~= sub);
    assert(r.skip(sub.len() as int + 1) =~= rest);
}

/// A path-routed public URL leads back to its tunnel, whatever the `Referer` and `Host` say:
/// `/t/<sub>` is redirected to `/t/<sub>/` with its query kept, and `/t/<sub>/<rest>` is
/// forwarded to the tunnel `sub` as `/<rest>` with its query, for every valid subdomain.
pub proof fn law_path_routes_to_tunnel(
    sub: Seq<char>,
    rest: Seq<char>,
    query: Option<Seq<char>>,
    referer: Option<Seq<char>>,
    host: Seq<char>,
    domain: Seq<char>,
    route: PublicRoute,
)
    requires
        valid_subdomain(sub),
    ensures
        route_ok("/t/"@ + sub, query, referer, host, domain, route) ==> (route matches PublicRoute::Redirect(loc)
            && loc@ == "/t/"@ + sub + "/"@ + query_suffix(query)),
        route_ok("/t/"@ + sub + "/"@ + rest, query, referer, host, domain, route) ==> (
        route matches PublicRoute::Tunnel { subdomain, rewrite } && subdomain@ == sub && rewrite is Some
            && rewrite->0@ == "/"@ + rest + query_suffix(query)),
{
    assert forall|i: int| 0 <= i < sub.len() implies sub[i] != '/' by {
        assert(subdomain_char(sub[i]));
    }
    lemma_bare_tunnel_path(sub);
    lemma_tunnel_path(sub, rest);
}

/// What the relay passes on is within its limits: no forwarded request header is one it drops
/// (`Host`, the hop-by-hop headers, the WebSocket handshake headers), at most
/// `MAX_HEADERS_PER_REQUEST` are forwarded, and every response header passed to the browser is
/// within the name and value size limits.
pub proof fn law_passed_headers_within_limits(
    request_headers: Seq<(String, String)>,
    response_headers: Seq<(String, String)>,
    websocket: bool,
)
    ensures
        forwarded_headers(request_headers, websocket).len() <= MAX_HEADERS_PER_REQUEST,
        forall|i: int|
            0 <= i < forwarded_headers(request_headers, websocket).len() ==> !header_dropped(
                spec_to_lowercase(#[trigger] forwarded_headers(request_headers, websocket)[i].0@),
                websocket,
            ),
        forall|i: int|
            0 <= i < passed_response_headers(response_headers).len() ==> header_within_limits(
                #[trigger] passed_response_headers(response_headers)[i],
            ),
{
    broadcast use vstd::seq_lib::group_filter_ensures;
    let keep = |h: (String, String)| !header_dropped(spec_to_lowercase(h.0@), websocket);
    let f = request_headers.filter(keep);
    assert forall|i: int| 0 <= i < forwarded_headers(request_headers, websocket).len() implies !header_dropped(
        spec_to_lowercase(#[trigger] forwarded_headers(request_headers, websocket)[i].0@),
        websocket,
    ) by {
        assert(forwarded_headers(request_headers, websocket)[i] == f[i]);
        assert(keep(f[i]));
    }
}

/// A subdomain that the relay accepts on request is valid and was free, and its public URLs
/// lead back to it: the path `/t/<sub>/<rest>` is forwarded to it as `/<rest>`, and the host
/// `<sub>.<domain>` names it unless it is `relay`.
pub proof fn law_accepted_subdomain_is_reachable(
    clean: Seq<char>,
    taken: bool,
    choice: SubdomainChoice,
    rest: Seq<char>,
    query: Option<Seq<char>>,
    referer: Option<Seq<char>>,
    host: Seq<char>,
    domain: Seq<char>,
    route: PublicRoute,
)
    requires
        subdomain_choice_ok(clean, taken, choice),
        choice is Use,
    ensures
        valid_subdomain(clean),
        !taken,
        route_ok("/t/"@ + clean + "/"@ + rest, query, referer, host, domain, route) ==> (
        route matches PublicRoute::Tunnel { subdomain, rewrite } && subdomain@ == clean && rewrite is Some
            && rewrite->0@ == "/"@ + rest + query_suffix(query)),
        clean != "relay"@ && (forall|i: int| 0 <= i < domain.len() ==> domain[i] != ':') ==> subdomain_of_host(
            clean + "."@ + domain,
            domain,
        ) == Some(clean),
{
    law_path_routes_to_tunnel(clean, rest, query, referer, host, domain, route);
    if clean != "relay"@ && (forall|i: int| 0 <= i < domain.len() ==> domain[i] != ':') {
        law_host_routes_to_tunnel(clean, domain, seq![]);
    }
}

/// Forwarding keeps every request header but the ones named here, by lower-cased name: for a
/// plain request `Host`, `Connection`, `Transfer-Encoding`, `Upgrade` and `Keep-Alive`; for a
/// WebSocket upgrade `Host`, `Connection`, `Upgrade` and the `Sec-WebSocket-Key`, `-Version` and
/// `-Extensions` handshake headers.  Within the header limit, the forwarded headers are exactly
/// the others, in order, so `Cookie`, `Authorization` or `Content-Type` always reach the client.
pub proof fn law_forwarded_headers_are_all_but_hop_by_hop(headers: Seq<(String, String)>)
    requires
        headers.len() <= MAX_HEADERS_PER_REQUEST,
    ensures
        forwarded_headers(headers, false) == headers.filter(
            |h: (String, String)|
                {
                    let n = spec_to_lowercase(h.0@);
                    !(n == "host"@ || n == "connection"@ || n == "transfer-encoding"@ || n == "upgrade"@ || n
                        == "keep-alive"@)
                },
        ),
        forwarded_headers(headers, true) == headers.filter(
            |h: (String, String)|
                {
                    let n = spec_to_lowercase(h.0@);
                    !(n == "host"@ || n == "connection"@ || n == "upgrade"@ || n == "sec-websocket-key"@ || n
                        == "sec-websocket-version"@ || n == "sec-websocket-extensions"@)
                },
        ),
        forall|i: int|
            0 <= i < headers.len() && !(spec_to_lowercase(headers[i].0@) == "host"@ || spec_to_lowercase(
                headers[i].0@,
            ) == "connection"@ || spec_to_lowercase(headers[i].0@) == "transfer-encoding"@ || spec_to_lowercase(
                headers[i].0@,
            ) == "upgrade"@ || spec_to_lowercase(headers[i].0@) == "keep-alive"@) ==> forwarded_headers(
                headers,
                false,
            ).contains(#[trigger] headers[i]),
{
    broadcast use vstd::seq_lib::group_filter_ensures;
    let plain = |h: (String, String)|
        {
            let n = spec_to_lowercase(h.0@);
            !(n == "host"@ || n == "connection"@ || n == "transfer-encoding"@ || n == "upgrade"@ || n
                == "keep-alive"@)
        };
    let ws = |h: (String, String)|
        {
            let n = spec_to_lowercase(h.0@);
            !(n == "host"@ || n == "connection"@ || n == "upgrade"@ || n == "sec-websocket-key"@ || n
                == "sec-websocket-version"@ || n == "sec-websocket-extensions"@)
        };
    let keep_plain = |h: (String, String)| !header_dropped(spec_to_lowercase(h.0@), false);
    let keep_ws = |h: (String, String)| !header_dropped(spec_to_lowercase(h.0@), true);
    assert(keep_plain =~= plain);
    assert(keep_ws =~= ws);
    assert(headers.filter(keep_plain).len() <= headers.len());
    assert(headers.filter(keep_ws).len() <= headers.len());
    assert forall|i: int|
        0 <= i < headers.len() && plain(headers[i]) implies forwarded_headers(headers, false).contains(
        #[trigger] headers[i],
    ) by {
        headers.lemma_filter_contains(plain, i);
    }
}

/// A response header reaches the browser exactly when its name has at most 256 bytes and its
/// value at most 8192 bytes.
pub proof fn law_response_header_size_limits(h: (String, String))
    ensures
        header_within_limits(h) <==> (byte_len(h.0@) <= 256 && byte_len(h.1@) <= 8192),
{
}

/// The public URL handed out for a tunnel leads back to it: with host routing its host names
/// the tunnel, with path routing its path on the relay's domain does.
pub proof fn law_public_url_leads_back(scheme: Seq<char>, domain: Seq<char>, sub: Seq<char>)
    requires
        valid_subdomain(sub),
        sub != "relay"@,
        forall|i: int| 0 <= i < domain.len() ==> domain[i] != ':',
    ensures
        exists|host: Seq<char>|
            public_url_text(scheme, domain, false, sub) == scheme + "://"@ + host && #[trigger] subdomain_of_host(
                host,
                domain,
            ) == Some(sub),
        exists|path: Seq<char>|
            public_url_text(scheme, domain, true, sub) == scheme + "://"@ + domain + path && #[trigger] tunnel_subdomain(
                path,
            ) == Some(sub),
{
    law_host_routes_to_tunnel(sub, domain, seq![]);
    let host = sub + "."@ + domain;
    assert(public_url_text(scheme, domain, false, sub) =~= scheme + "://"@ + host);
    assert(subdomain_of_host(host, domain) == Some(sub));
    assert forall|i: int| 0 <= i < sub.len() implies sub[i] != '/' by {
        assert(subdomain_char(sub[i]));
    }
    lemma_bare_tunnel_path(sub);
    let path = "/t/"@ + sub;
    assert(public_url_text(scheme, domain, true, sub) =~= scheme + "://"@ + domain + path);
    assert(tunnel_subdomain(path) == Some(sub));
}

} // verus!

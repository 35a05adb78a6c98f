use tunnelx::crypto::hash_token;
use tunnelx::relay::new_session;
use tunnelx::session::{Session, SessionStore};

/// Milliseconds as the relay's nanosecond clock counts them.
fn session_ms(n: u64) -> u64 {
    n * 1_000_000
}

fn session(subdomain: &str, token: &str, now: u64) -> Session {
    new_session(subdomain.to_string(), token, 7, now, None)
}

#[test]
fn inserted_session_is_found_and_verified() {
    let mut store = SessionStore::new();
    assert_eq!(store.session_count(), 0);
    store.insert_session(session("my-app", "tok", 0));
    assert_eq!(store.session_count(), 1);
    let found = store.get_session("my-app").expect("session");
    assert_eq!(found.connection_id, 7);
    assert!(store.verify_and_get_session("my-app", &hash_token("tok")));
    assert!(!store.verify_and_get_session("my-app", &hash_token("other")));
    assert!(!store.verify_and_get_session("nope", &hash_token("tok")));
}

#[test]
fn removed_session_is_gone() {
    let mut store = SessionStore::new();
    store.insert_session(session("a", "t1", 0));
    store.insert_session(session("b", "t2", 0));
    store.remove_session("a");
    assert!(store.get_session("a").is_none());
    assert!(store.get_session("b").is_some());
    assert_eq!(store.session_count(), 1);
    store.remove_session("a");
    assert_eq!(store.session_count(), 1);
}

#[test]
fn reinsert_replaces_session() {
    let mut store = SessionStore::new();
    store.insert_session(session("a", "t1", 0));
    store.insert_session(session("a", "t2", 5));
    assert_eq!(store.session_count(), 1);
    assert!(store.verify_and_get_session("a", &hash_token("t2")));
    assert_eq!(store.get_session("a").unwrap().created_at, 5);
}

#[test]
fn session_expires_after_missed_heartbeats() {
    let s = session("a", "t", session_ms(1_000));
    assert!(!s.is_expired(session_ms(1_000)));
    assert!(!s.is_expired(session_ms(91_000)));
    assert!(s.is_expired(session_ms(91_001)));
    assert!(!s.is_expired(session_ms(0)));
}

#[test]
fn session_expires_after_its_duration() {
    let s = new_session("a".to_string(), "t", 1, 0, Some(60));
    assert!(!s.is_expired(session_ms(60_000)));
    let mut s2 = s.clone();
    s2.touch_heartbeat(session_ms(60_001));
    assert!(s2.is_expired(session_ms(60_001)));
    let mut s3 = s.clone();
    s3.touch_heartbeat(session_ms(59_000));
    assert!(!s3.is_expired(session_ms(59_500)));
}

#[test]
fn heartbeat_keeps_session_alive() {
    let mut store = SessionStore::new();
    store.insert_session(session("a", "t", session_ms(0)));
    store.touch_heartbeat("a", session_ms(80_000));
    assert!(store.expired_subdomains(session_ms(100_000)).is_empty());
    assert_eq!(store.expired_subdomains(session_ms(170_001)), vec!["a".to_string()]);
    store.touch_heartbeat("missing", session_ms(1));
    assert_eq!(store.session_count(), 1);
}

#[test]
fn expired_subdomains_lists_each_once() {
    let mut store = SessionStore::new();
    store.insert_session(session("a", "t1", session_ms(0)));
    store.insert_session(session("b", "t2", session_ms(50_000)));
    store.insert_session(session("c", "t3", session_ms(0)));
    let mut expired = store.expired_subdomains(session_ms(100_000));
    expired.sort();
    assert_eq!(expired, vec!["a".to_string(), "c".to_string()]);
}

#[test]
fn rate_limited_within_one_second() {
    let mut s = session("a", "t", session_ms(0));
    for _ in 0..1001 {
        s.touch_request(session_ms(10));
    }
    assert_eq!(s.request_count, 1001);
    assert!(s.is_rate_limited(session_ms(500)));
    assert!(!s.is_rate_limited(session_ms(1_010)));
    let mut calm = session("b", "t", session_ms(0));
    calm.touch_request(session_ms(10));
    assert!(!calm.is_rate_limited(session_ms(10)));
}

#[test]
fn expiry_is_decided_to_the_nanosecond() {
    let s = session("a", "t", 0);
    assert!(!s.is_expired(90_000_000_000));
    assert!(s.is_expired(90_000_000_001));
    let d = new_session("d".to_string(), "t", 1, 5, Some(1));
    let mut d = d;
    d.touch_heartbeat(1_000_000_005);
    assert!(!d.is_expired(1_000_000_005));
    assert!(d.is_expired(1_000_000_006));
}

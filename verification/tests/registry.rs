use tunnelx::registry::{
    format_uptime, get_active, heartbeat, list_active, register, unregister, RegistryEntry, STALE_SECS,
};

fn entry(subdomain: &str, pid: u32, heartbeat: u64) -> RegistryEntry {
    RegistryEntry {
        subdomain: subdomain.to_string(),
        port: 3000,
        public_url: format!("https://{subdomain}.darsha.dev"),
        pid,
        started_at: heartbeat,
        heartbeat,
    }
}

fn names(entries: &[RegistryEntry]) -> Vec<String> {
    entries.iter().map(|e| e.subdomain.clone()).collect()
}

#[test]
fn register_replaces_same_subdomain_and_process() {
    let entries = vec![entry("a", 1, 10), entry("b", 2, 10), entry("c", 3, 10)];
    let out = register(&entries, "b", 8080, "https://b.darsha.dev", 3, 100);
    assert_eq!(names(&out), vec!["a", "b"]);
    let last = out.last().unwrap();
    assert_eq!(last.port, 8080);
    assert_eq!(last.pid, 3);
    assert_eq!(last.started_at, 100);
    assert_eq!(last.heartbeat, 100);
    assert_eq!(last.public_url, "https://b.darsha.dev");
}

#[test]
fn registered_tunnel_is_found_at_once() {
    let entries = vec![entry("old", 9, 0), entry("x", 1, 0)];
    let out = register(&entries, "x", 4000, "https://x.darsha.dev", 7, 1_000);
    let found = get_active(&out, "x", 1_000).expect("registered tunnel");
    assert_eq!(found.port, 4000);
    assert_eq!(found.pid, 7);
}

#[test]
fn heartbeat_refreshes_only_its_subdomain() {
    let entries = vec![entry("a", 1, 10), entry("b", 2, 10)];
    let (out, changed) = heartbeat(&entries, "b", 50);
    assert!(changed);
    assert_eq!(out[0].heartbeat, 10);
    assert_eq!(out[1].heartbeat, 50);
    let (same, changed) = heartbeat(&entries, "zzz", 50);
    assert!(!changed);
    assert_eq!(names(&same), vec!["a", "b"]);
    assert_eq!(same[1].heartbeat, 10);
}

#[test]
fn unregister_removes_subdomain() {
    let entries = vec![entry("a", 1, 10), entry("b", 2, 10), entry("a", 3, 10)];
    let (out, changed) = unregister(&entries, "a");
    assert!(changed);
    assert_eq!(names(&out), vec!["b"]);
    let (out2, changed) = unregister(&out, "a");
    assert!(!changed);
    assert_eq!(names(&out2), vec!["b"]);
    assert!(get_active(&out, "a", 10).is_none());
}

#[test]
fn stale_entries_are_not_listed() {
    let now = 1_000;
    let entries = vec![
        entry("fresh", 1, now),
        entry("edge", 2, now - STALE_SECS),
        entry("stale", 3, now - STALE_SECS - 1),
        entry("future", 4, now + 5),
    ];
    let (alive, dropped) = list_active(&entries, now);
    assert!(dropped);
    assert_eq!(names(&alive), vec!["fresh", "edge", "future"]);
    let (alive, dropped) = list_active(&alive, now);
    assert!(!dropped);
    assert_eq!(alive.len(), 3);
    assert!(get_active(&entries, "stale", now).is_none());
    assert_eq!(get_active(&entries, "edge", now).unwrap().pid, 2);
}

#[test]
fn get_active_takes_first_alive_match() {
    let entries = vec![entry("a", 1, 0), entry("a", 2, 100), entry("a", 3, 100)];
    assert_eq!(get_active(&entries, "a", 100).unwrap().pid, 2);
    assert!(get_active(&entries, "b", 100).is_none());
}

#[test]
fn uptime_is_written_compactly() {
    assert_eq!(format_uptime(0), "0s");
    assert_eq!(format_uptime(42), "42s");
    assert_eq!(format_uptime(60), "1m 0s");
    assert_eq!(format_uptime(630), "10m 30s");
    assert_eq!(format_uptime(3600), "1h 0m");
    assert_eq!(format_uptime(8100), "2h 15m");
    assert_eq!(format_uptime(8159), "2h 15m");
}

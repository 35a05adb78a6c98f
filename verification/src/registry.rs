//! The local list of running tunnels, as the `list` and `status` commands read it.
//!
//! Each running tunnel process records itself with a heartbeat timestamp; readers drop entries
//! whose heartbeat has gone stale, so a crashed process disappears on its own.  Reading and
//! writing the list's file is the caller's part; these functions compute the new list.
use vstd::prelude::*;
use crate::text::{decimal, decimal_text, join2, same_text};

verus! {

/// An entry is considered dead if its heartbeat is older than this (seconds).
pub const STALE_SECS: u64 = 15;

/// One running tunnel.
#[derive(Debug, Clone)]
pub struct RegistryEntry {
    pub subdomain: String,
    pub port: u16,
    pub public_url: String,
    pub pid: u32,
    /// Unix seconds when the tunnel came up.
    pub started_at: u64,
    /// Unix seconds of the last heartbeat.
    pub heartbeat: u64,
}

/// The entry's heartbeat is at most `STALE_SECS` old at `now`.
pub open spec fn entry_alive(e: RegistryEntry, now: u64) -> bool {
    (if now >= e.heartbeat { now - e.heartbeat } else { 0 }) <= STALE_SECS
}

fn copy_entry(e: &RegistryEntry) -> (c: RegistryEntry)
    ensures
        c == *e,
{
    RegistryEntry {
        subdomain: e.subdomain.clone(),
        port: e.port,
        public_url: e.public_url.clone(),
        pid: e.pid,
        started_at: e.started_at,
        heartbeat: e.heartbeat,
    }
}

proof fn lemma_filter_step(s: Seq<RegistryEntry>, i: int, p: spec_fn(RegistryEntry) -> bool)
    requires
        0 <= i < s.len(),
    ensures
        s.take(i + 1).filter(p) == (if p(s[i]) {
            s.take(i).filter(p).push(s[i])
        } else {
            s.take(i).filter(p)
        }),
{
    reveal_with_fuel(Seq::<_>::filter, 1);
    assert(s.take(i + 1).drop_last() =~= s.take(i));
}

proof fn lemma_filter_empty(s: Seq<RegistryEntry>, p: spec_fn(RegistryEntry) -> bool)
    ensures
        s.take(0).filter(p) =~= Seq::<RegistryEntry>::empty(),
{
    reveal_with_fuel(Seq::<_>::filter, 1);
    assert(s.take(0) =~= Seq::<RegistryEntry>::empty());
}

/// The entries that `register` keeps: those of other subdomains and other processes.
pub open spec fn kept_by_register(subdomain: Seq<char>, pid: u32) -> spec_fn(RegistryEntry) -> bool {
    |e: RegistryEntry| e.subdomain@ != subdomain && e.pid != pid
}

/// `out` is `entries` after this process records its tunnel: the entries for other subdomains
/// and from other processes, in order, then the fresh entry, started and beating at `now`.
pub open spec fn register_result(
    entries: Seq<RegistryEntry>,
    subdomain: Seq<char>,
    port: u16,
    public_url: Seq<char>,
    pid: u32,
    now: u64,
    out: Seq<RegistryEntry>,
) -> bool {
    &&& out.len() > 0
    &&& out.drop_last() == entries.filter(kept_by_register(subdomain, pid))
    &&& out.last().subdomain@ == subdomain
    &&& out.last().port == port
    &&& out.last().public_url@ == public_url
    &&& out.last().pid == pid
    &&& out.last().started_at == now
    &&& out.last().heartbeat == now
}

/// The entries after this process records its tunnel: any entry for the same subdomain or from
/// the same process is replaced by a fresh one, started and beating at `now`.
pub fn register(
    entries: &Vec<RegistryEntry>,
    subdomain: &str,
    port: u16,
    public_url: &str,
    pid: u32,
    now: u64,
) -> (out: Vec<RegistryEntry>)
    ensures
        register_result(entries@, subdomain@, port, public_url@, pid, now, out@),
{
    let ghost keep = kept_by_register(subdomain@, pid);
    let ghost all = entries@;
    let mut out: Vec<RegistryEntry> = Vec::new();
    let n = entries.len();
    let mut i: usize = 0;
    proof {
        lemma_filter_empty(all, keep);
    }
    while i < n
        invariant
            n == all.len(),
            entries@ == all,
            i <= n,
            out@ == all.take(i as int).filter(keep),
            keep == kept_by_register(subdomain@, pid),
        decreases n - i,
    {
        let e = copy_entry(&entries[i]);
        proof {
            lemma_filter_step(all, i as int, keep);
        }
        if !same_text(e.subdomain.as_str(), subdomain) && e.pid != pid {
            out.push(e);
        }
        i = i + 1;
    }
    assert(all.take(n as int) =~= all);
    let ghost kept = out@;
    out.push(RegistryEntry {
        subdomain: String::from_str(subdomain),
        port,
        public_url: String::from_str(public_url),
        pid,
        started_at: now,
        heartbeat: now,
    });
    assert(out@.drop_last() =~= kept);
    out
}

/// The entry with its heartbeat refreshed to `now` when it is the given subdomain's.
pub open spec fn beat(e: RegistryEntry, subdomain: Seq<char>, now: u64) -> RegistryEntry {
    if e.subdomain@ == subdomain {
        RegistryEntry { heartbeat: now, ..e }
    } else {
        e
    }
}

/// The entries after a heartbeat of `subdomain` at `now`, and whether any entry changed (the
/// list is only written back then).
pub fn heartbeat(entries: &Vec<RegistryEntry>, subdomain: &str, now: u64) -> (res: (Vec<RegistryEntry>, bool))
    ensures
        res.0@ == entries@.map_values(|e: RegistryEntry| beat(e, subdomain@, now)),
        res.1 == exists|i: int| 0 <= i < entries@.len() && entries@[i].subdomain@ == subdomain@,
{
    let mut out: Vec<RegistryEntry> = Vec::new();
    let mut changed = false;
    let n = entries.len();
    let mut i: usize = 0;
    while i < n
        invariant
            n == entries@.len(),
            i <= n,
            out@ == entries@.take(i as int).map_values(|e: RegistryEntry| beat(e, subdomain@, now)),
            changed == exists|j: int| 0 <= j < i && entries@[j].subdomain@ == subdomain@,
        decreases n - i,
    {
        let mut e = copy_entry(&entries[i]);
        if same_text(e.subdomain.as_str(), subdomain) {
            e.heartbeat = now;
            changed = true;
        }
        out.push(e);
        assert(entries@.take(i + 1).map_values(|e: RegistryEntry| beat(e, subdomain@, now)) =~= entries@.take(
            i as int,
        ).map_values(|e: RegistryEntry| beat(e, subdomain@, now)).push(beat(entries@[i as int], subdomain@, now)));
        i = i + 1;
    }
    assert(entries@.take(n as int) =~= entries@);
    (out, changed)
}

/// The entries after this process's tunnel is removed on clean shutdown, and whether any entry
/// was removed.
pub fn unregister(entries: &Vec<RegistryEntry>, subdomain: &str) -> (res: (Vec<RegistryEntry>, bool))
    ensures
        res.0@ == entries@.filter(|e: RegistryEntry| e.subdomain@ != subdomain@),
        res.1 == (res.0@.len() != entries@.len()),
{
    let ghost keep = |e: RegistryEntry| e.subdomain@ != subdomain@;
    let ghost all = entries@;
    let mut out: Vec<RegistryEntry> = Vec::new();
    let n = entries.len();
    let mut i: usize = 0;
    proof {
        lemma_filter_empty(all, keep);
    }
    while i < n
        invariant
            n == all.len(),
            entries@ == all,
            i <= n,
            out@ == all.take(i as int).filter(keep),
            keep == (|e: RegistryEntry| e.subdomain@ != subdomain@),
        decreases n - i,
    {
        let e = copy_entry(&entries[i]);
        proof {
            lemma_filter_step(all, i as int, keep);
        }
        if !same_text(e.subdomain.as_str(), subdomain) {
            out.push(e);
        }
        i = i + 1;
    }
    assert(all.take(n as int) =~= all);
    let changed = out.len() != n;
    (out, changed)
}

/// The entries whose heartbeat is at most `STALE_SECS` old at `now`, in order.
pub open spec fn active_entries(entries: Seq<RegistryEntry>, now: u64) -> Seq<RegistryEntry> {
    entries.filter(|e: RegistryEntry| entry_alive(e, now))
}

/// The active entries at `now`, in order, and whether any stale entry was dropped (the list is
/// then written back without them).
pub fn list_active(entries: &Vec<RegistryEntry>, now: u64) -> (res: (Vec<RegistryEntry>, bool))
    ensures
        res.0@ == active_entries(entries@, now),
        res.1 == exists|i: int| 0 <= i < entries@.len() && !entry_alive(entries@[i], now),
{
    let ghost keep = |e: RegistryEntry| entry_alive(e, now);
    let ghost all = entries@;
    let mut alive: Vec<RegistryEntry> = Vec::new();
    let mut stale = false;
    let n = entries.len();
    let mut i: usize = 0;
    proof {
        lemma_filter_empty(all, keep);
    }
    while i < n
        invariant
            n == all.len(),
            entries@ == all,
            i <= n,
            alive@ == all.take(i as int).filter(keep),
            stale == exists|j: int| 0 <= j < i && !entry_alive(all[j], now),
            keep == (|e: RegistryEntry| entry_alive(e, now)),
        decreases n - i,
    {
        let e = copy_entry(&entries[i]);
        proof {
            lemma_filter_step(all, i as int, keep);
        }
        let age = now.saturating_sub(e.heartbeat);
        if age <= STALE_SECS {
            alive.push(e);
        } else {
            stale = true;
        }
        i = i + 1;
    }
    assert(all.take(n as int) =~= all);
    (alive, stale)
}

/// The first entry of `entries` for `subdomain`.
pub open spec fn first_for(entries: Seq<RegistryEntry>, subdomain: Seq<char>) -> Option<RegistryEntry>
    decreases entries.len(),
{
    if entries.len() == 0 {
        None
    } else if entries[0].subdomain@ == subdomain {
        Some(entries[0])
    } else {
        first_for(entries.drop_first(), subdomain)
    }
}

/// Look up a single active tunnel by subdomain.
pub fn get_active(entries: &Vec<RegistryEntry>, subdomain: &str, now: u64) -> (found: Option<RegistryEntry>)
    ensures
        found == first_for(active_entries(entries@, now), subdomain@),
{
    let (alive, _) = list_active(entries, now);
    let n = alive.len();
    let mut i: usize = 0;
    assert(alive@.skip(0) =~= alive@);
    while i < n
        invariant
            n == alive@.len(),
            i <= n,
            first_for(alive@.skip(i as int), subdomain@) == first_for(alive@, subdomain@),
            alive@ == active_entries(entries@, now),
        decreases n - i,
    {
        let e = &alive[i];
        if same_text(e.subdomain.as_str(), subdomain) {
            assert(alive@.skip(i as int)[0] == alive@[i as int]);
            assert(alive@.skip(i as int).len() > 0);
            return Some(copy_entry(e));
        }
        assert(alive@.skip(i as int).drop_first() =~= alive@.skip(i + 1));
        i = i + 1;
    }
    None
}

/// `2h 15m`, `10m 30s` or `42s`: a duration in seconds written compactly.
pub open spec fn uptime_text(secs: u64) -> Seq<char> {
    let h = secs / 3600;
    let m = (secs % 3600) / 60;
    let s = secs % 60;
    if h > 0 {
        decimal(h as nat) + "h "@ + decimal(m as nat) + "m"@
    } else if m > 0 {
        decimal(m as nat) + "m "@ + decimal(s as nat) + "s"@
    } else {
        decimal(s as nat) + "s"@
    }
}

/// Format a duration in seconds as a compact human string, e.g. "2h 15m" or "10m 30s".
pub fn format_uptime(secs: u64) -> (text: String)
    ensures
        text@ == uptime_text(secs),
{
    let h = secs / 3600;
    let m = (secs % 3600) / 60;
    let s = secs % 60;
    if h > 0 {
        let a = decimal_text(h);
        let b = join2(a.as_str(), "h ");
        let c = decimal_text(m);
        let d = join2(b.as_str(), c.as_str());
        let text = join2(d.as_str(), "m");
        assert(text@ =~= decimal(h as nat) + "h "@ + decimal(m as nat) + "m"@);
        text
    } else if m > 0 {
        let a = decimal_text(m);
        let b = join2(a.as_str(), "m ");
        let c = decimal_text(s);
        let d = join2(b.as_str(), c.as_str());
        let text = join2(d.as_str(), "s");
        assert(text@ =~= decimal(m as nat) + "m "@ + decimal(s as nat) + "s"@);
        text
    } else {
        let a = decimal_text(s);
        join2(a.as_str(), "s")
    }
}

proof fn lemma_first_for_none(s: Seq<RegistryEntry>, subdomain: Seq<char>)
    requires
        forall|i: int| 0 <= i < s.len() ==> s[i].subdomain@ != subdomain,
    ensures
        first_for(s, subdomain) is None,
    decreases s.len(),
{
    if s.len() > 0 {
        assert(s[0].subdomain@ != subdomain);
        lemma_first_for_none(s.drop_first(), subdomain);
    }
}

proof fn lemma_first_for_push(s: Seq<RegistryEntry>, e: RegistryEntry, subdomain: Seq<char>)
    requires
        forall|i: int| 0 <= i < s.len() ==> s[i].subdomain@ != subdomain,
        e.subdomain@ == subdomain,
    ensures
        first_for(s.push(e), subdomain) == Some(e),
    decreases s.len(),
{
    if s.len() == 0 {
        assert(s.push(e)[0] == e);
    } else {
        assert(s.push(e)[0] == s[0]);
        assert(s.push(e).drop_first() =~= s.drop_first().push(e));
        lemma_first_for_push(s.drop_first(), e, subdomain);
    }
}

proof fn lemma_first_for_some(s: Seq<RegistryEntry>, i: int, subdomain: Seq<char>)
    requires
        0 <= i < s.len(),
        s[i].subdomain@ == subdomain,
    ensures
        first_for(s, subdomain) is Some,
    decreases i,
{
    if s[0].subdomain@ != subdomain {
        assert(s.drop_first()[i - 1] == s[i]);
        lemma_first_for_some(s.drop_first(), i - 1, subdomain);
    }
}

/// Every element of `s.filter(p)` is an element of `s` for which `p` holds.
proof fn lemma_filtered_from(s: Seq<RegistryEntry>, p: spec_fn(RegistryEntry) -> bool, i: int)
    requires
        0 <= i < s.filter(p).len(),
    ensures
        p(s.filter(p)[i]),
        exists|j: int| 0 <= j < s.len() && s[j] == s.filter(p)[i],
{
    broadcast use vstd::seq_lib::group_filter_ensures;
    assert(s.filter(p).contains(s.filter(p)[i]));
    s.lemma_filter_contains_rev(p, s.filter(p)[i]);
}

/// A tunnel just recorded by `register` is what `get_active` finds for its subdomain at the
/// same moment, with the port, URL and process it was recorded with.
pub proof fn law_registered_tunnel_is_found(
    entries: Seq<RegistryEntry>,
    subdomain: Seq<char>,
    port: u16,
    public_url: Seq<char>,
    pid: u32,
    now: u64,
    out: Seq<RegistryEntry>,
)
    requires
        register_result(entries, subdomain, port, public_url, pid, now, out),
    ensures
        first_for(active_entries(out, now), subdomain) == Some(out.last()),
        out.last().port == port,
        out.last().public_url@ == public_url,
        out.last().pid == pid,
{
    let alive = |e: RegistryEntry| entry_alive(e, now);
    let keep = kept_by_register(subdomain, pid);
    let d = out.drop_last();
    assert(out =~= d.push(out.last()));
    d.lemma_filter_push(out.last(), alive);
    assert(alive(out.last()));
    let f = d.filter(alive);
    assert forall|i: int| 0 <= i < f.len() implies f[i].subdomain@ != subdomain by {
        lemma_filtered_from(d, alive, i);
        let j = choose|j: int| 0 <= j < d.len() && d[j] == f[i];
        lemma_filtered_from(entries, keep, j);
    }
    lemma_first_for_push(f, out.last(), subdomain);
}

/// After `unregister`, `get_active` finds no tunnel for the subdomain, at any moment.
pub proof fn law_unregistered_tunnel_is_gone(entries: Seq<RegistryEntry>, subdomain: Seq<char>, now: u64)
    ensures
        first_for(active_entries(entries.filter(|e: RegistryEntry| e.subdomain@ != subdomain), now), subdomain)
            is None,
{
    let alive = |e: RegistryEntry| entry_alive(e, now);
    let keep = |e: RegistryEntry| e.subdomain@ != subdomain;
    let d = entries.filter(keep);
    let f = d.filter(alive);
    assert forall|i: int| 0 <= i < f.len() implies f[i].subdomain@ != subdomain by {
        lemma_filtered_from(d, alive, i);
        let j = choose|j: int| 0 <= j < d.len() && d[j] == f[i];
        lemma_filtered_from(entries, keep, j);
    }
    lemma_first_for_none(f, subdomain);
}

/// A tunnel that has just sent its heartbeat is listed: after `heartbeat` at `now`,
/// `get_active` at `now` finds the subdomain exactly when the list had an entry for it.
pub proof fn law_heartbeat_keeps_tunnel_listed(entries: Seq<RegistryEntry>, subdomain: Seq<char>, now: u64)
    ensures
        first_for(active_entries(entries.map_values(|e: RegistryEntry| beat(e, subdomain, now)), now), subdomain)
            is Some <==> exists|i: int| 0 <= i < entries.len() && entries[i].subdomain@ == subdomain,
{
    let alive = |e: RegistryEntry| entry_alive(e, now);
    let out = entries.map_values(|e: RegistryEntry| beat(e, subdomain, now));
    let f = out.filter(alive);
    if exists|i: int| 0 <= i < entries.len() && entries[i].subdomain@ == subdomain {
        let i = choose|i: int| 0 <= i < entries.len() && entries[i].subdomain@ == subdomain;
        assert(out[i] == beat(entries[i], subdomain, now));
        assert(alive(out[i]));
        broadcast use vstd::seq_lib::group_filter_ensures;
        assert(f.contains(out[i]));
        let k = choose|k: int| 0 <= k < f.len() && f[k] == out[i];
        lemma_first_for_some(f, k, subdomain);
    } else {
        assert forall|k: int| 0 <= k < f.len() implies f[k].subdomain@ != subdomain by {
            lemma_filtered_from(out, alive, k);
            let j = choose|j: int| 0 <= j < out.len() && out[j] == f[k];
            assert(out[j] == beat(entries[j], subdomain, now));
        }
        lemma_first_for_none(f, subdomain);
    }
}

/// A crashed tunnel disappears on its own: once every entry for a subdomain has a heartbeat
/// older than `STALE_SECS`, `get_active` finds nothing for it and `list_active` drops those
/// entries.
pub proof fn law_stale_tunnel_disappears(entries: Seq<RegistryEntry>, subdomain: Seq<char>, now: u64)
    requires
        forall|i: int| 0 <= i < entries.len() && (#[trigger] entries[i]).subdomain@ == subdomain ==> !entry_alive(
            entries[i],
            now,
        ),
    ensures
        first_for(active_entries(entries, now), subdomain) is None,
        forall|i: int|
            0 <= i < active_entries(entries, now).len() ==> (#[trigger] active_entries(entries, now)[i]).subdomain@ != subdomain,
{
    let alive = |e: RegistryEntry| entry_alive(e, now);
    let f = entries.filter(alive);
    assert forall|k: int| 0 <= k < f.len() implies (#[trigger] f[k]).subdomain@ != subdomain by {
        lemma_filtered_from(entries, alive, k);
        let j = choose|j: int| 0 <= j < entries.len() && entries[j] == f[k];
        assert(entries[j] == f[k]);
    }
    lemma_first_for_none(f, subdomain);
}

/// An entry stays listed for 15 seconds after its last heartbeat, that moment included, and
/// not a second longer.
pub proof fn law_entry_lives_fifteen_seconds(e: RegistryEntry, now: u64)
    ensures
        entry_alive(e, now) <==> now <= e.heartbeat + 15,
{
}

} // verus!

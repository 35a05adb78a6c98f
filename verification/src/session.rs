//! The relay's registry of live tunnel sessions.
use vstd::prelude::*;
use dashmap::DashMap;
use crate::config::{NANOS_PER_SEC, RATE_LIMIT_PER_CLIENT, SESSION_TIMEOUT_SECS};

verus! {

#[verifier::external_type_specification]
#[verifier::external_body]
#[verifier::reject_recursive_types(K)]
#[verifier::reject_recursive_types(V)]
#[verifier::reject_recursive_types(S)]
pub struct ExDashMap<K, V, S>(DashMap<K, V, S>);

/// One registered tunnel.  Times are nanoseconds on the relay's monotonic clock; the
/// connection to the tunnel client is found again by `connection_id`.
#[derive(Debug, Clone)]
pub struct Session {
    pub id: u128,
    pub subdomain: String,
    /// SHA-256 hash (hex) of the token the client registered with.
    pub token_hash: String,
    pub connection_id: u64,
    pub created_at: u64,
    pub last_heartbeat: u64,
    pub last_request: u64,
    pub request_count: u64,
    /// Tunnel duration limit. `None` means no expiry (server default).
    pub duration_secs: Option<u64>,
    /// Client IP for rate limiting and logging.
    pub client_addr: Option<String>,
}

/// Nanoseconds from `then` to `now`; zero when `then` is later.
pub open spec fn elapsed_ns(now: u64, then: u64) -> nat {
    if now >= then {
        (now - then) as nat
    } else {
        0
    }
}

impl Session {
    /// The session's heartbeat is older than the session timeout, or the session has outlived
    /// its duration.
    pub open spec fn expired_at(self, now: u64) -> bool {
        ||| elapsed_ns(now, self.last_heartbeat) > SESSION_TIMEOUT_SECS * NANOS_PER_SEC
        ||| (self.duration_secs matches Some(d) && elapsed_ns(now, self.created_at) > d * NANOS_PER_SEC)
    }

    /// Record a heartbeat received at `now`.
    pub fn touch_heartbeat(&mut self, now: u64)
        ensures
            *final(self) == (Session { last_heartbeat: now, ..*old(self) }),
    {
        self.last_heartbeat = now;
    }

    /// Record a request served at `now`.
    pub fn touch_request(&mut self, now: u64)
        requires
            old(self).request_count < u64::MAX,
        ensures
            *final(self) == (Session {
                last_request: now,
                request_count: (old(self).request_count + 1) as u64,
                ..*old(self)
            }),
    {
        self.last_request = now;
        self.request_count = self.request_count + 1;
    }

    /// Within the same whole second as the last request, more requests than the per-client
    /// limit have been counted.
    pub fn is_rate_limited(&self, now: u64) -> (limited: bool)
        ensures
            limited == (elapsed_ns(now, self.last_request) / (NANOS_PER_SEC as nat) == 0 && self.request_count
                > RATE_LIMIT_PER_CLIENT),
    {
        let elapsed: u64 = if now >= self.last_request {
            now - self.last_request
        } else {
            0
        };
        if elapsed / NANOS_PER_SEC == 0 {
            self.request_count > RATE_LIMIT_PER_CLIENT as u64
        } else {
            false
        }
    }

    /// Whether the session has expired at `now`, as the cleanup task decides it.
    pub fn is_expired(&self, now: u64) -> (expired: bool)
        ensures
            expired == self.expired_at(now),
    {
        let since_heartbeat: u64 = if now >= self.last_heartbeat {
            now - self.last_heartbeat
        } else {
            0
        };
        if since_heartbeat > SESSION_TIMEOUT_SECS * NANOS_PER_SEC {
            return true;
        }
        match self.duration_secs {
            Some(d) => {
                let since_created: u64 = if now >= self.created_at {
                    now - self.created_at
                } else {
                    0
                };
                let limit: u128 = d as u128;
                assert(limit * 1_000_000_000 <= 0xffff_ffff_ffff_ffff * 1_000_000_000) by (nonlinear_arith)
                    requires
                        limit <= 0xffff_ffff_ffff_ffff,
                ;
                (since_created as u128) > limit * (NANOS_PER_SEC as u128)
            },
            None => false,
        }
    }
}

/// What the session map holds, keyed by subdomain.
pub uninterp spec fn session_entries(map: DashMap<String, Session>) -> Map<Seq<char>, Session>;

/// What the token index holds: token hash to subdomain.
pub uninterp spec fn token_entries(map: DashMap<String, String>) -> Map<Seq<char>, Seq<char>>;

/// `DashMap::new` for the session map: empty.
#[verifier::external_body]
fn new_session_map() -> (map: DashMap<String, Session>)
    ensures
        session_entries(map) =~= Map::empty(),
{
    DashMap::new()
}

/// `DashMap::insert`: the key now maps to the value, all else is kept.
#[verifier::external_body]
fn session_map_insert(map: &mut DashMap<String, Session>, key: String, value: Session)
    ensures
        session_entries(*final(map)) == session_entries(*old(map)).insert(key@, value),
{
    map.insert(key, value);
}

/// `DashMap::remove`: the key is gone, all else is kept.
#[verifier::external_body]
fn session_map_remove(map: &mut DashMap<String, Session>, key: &str)
    ensures
        session_entries(*final(map)) == session_entries(*old(map)).remove(key@),
{
    map.remove(key);
}

/// `DashMap::get`, with the value cloned out of the guard.
#[verifier::external_body]
fn session_map_get(map: &DashMap<String, Session>, key: &str) -> (value: Option<Session>)
    ensures
        value == session_entries(*map).get(key@),
{
    map.get(key).map(|entry| entry.value().clone())
}

/// `DashMap::len`: the number of entries.
#[verifier::external_body]
fn session_map_len(map: &DashMap<String, Session>) -> (n: usize)
    ensures
        n == session_entries(*map).len(),
{
    map.len()
}

/// `DashMap::iter`, each entry cloned out: every entry once, in the map's order.
#[verifier::external_body]
fn session_map_entries(map: &DashMap<String, Session>) -> (items: Vec<(String, Session)>)
    ensures
        forall|i: int| 0 <= i < items@.len() ==> session_entries(*map).get(#[trigger] items@[i].0@) == Some(items@[i].1),
        forall|i: int, j: int| 0 <= i < j < items@.len() ==> #[trigger] items@[i].0@ != #[trigger] items@[j].0@,
        forall|k: Seq<char>| #[trigger] session_entries(*map).contains_key(k) ==> exists|i: int| 0 <= i < items@.len() && items@[i].0@ == k,
{
    map.iter().map(|entry| (entry.key().clone(), entry.value().clone())).collect()
}

/// `DashMap::new` for the token index: empty.
#[verifier::external_body]
fn new_token_map() -> (map: DashMap<String, String>)
    ensures
        token_entries(map) =~= Map::empty(),
{
    DashMap::new()
}

/// `DashMap::insert` on the token index.
#[verifier::external_body]
fn token_map_insert(map: &mut DashMap<String, String>, key: String, value: String)
    ensures
        token_entries(*final(map)) == token_entries(*old(map)).insert(key@, value@),
{
    map.insert(key, value);
}

/// `DashMap::remove` on the token index.
#[verifier::external_body]
fn token_map_remove(map: &mut DashMap<String, String>, key: &str)
    ensures
        token_entries(*final(map)) == token_entries(*old(map)).remove(key@),
{
    map.remove(key);
}

/// The live sessions, keyed by subdomain, and the index from token hash to subdomain.
pub struct SessionStore {
    sessions: DashMap<String, Session>,
    token_index: DashMap<String, String>,
}

impl SessionStore {
    /// The sessions, keyed by subdomain.
    pub closed spec fn sessions_view(&self) -> Map<Seq<char>, Session> {
        session_entries(self.sessions)
    }

    /// The token index: token hash to subdomain.
    pub closed spec fn tokens_view(&self) -> Map<Seq<char>, Seq<char>> {
        token_entries(self.token_index)
    }

    /// Both maps hold finitely many entries.
    #[verifier::type_invariant]
    spec fn maps_are_finite(self) -> bool {
        &&& session_entries(self.sessions).dom().finite()
        &&& token_entries(self.token_index).dom().finite()
    }

    /// The store holds finitely many sessions and index entries.
    pub open spec fn is_finite(&self) -> bool {
        &&& self.sessions_view().dom().finite()
        &&& self.tokens_view().dom().finite()
    }

    /// An empty store.
    pub fn new() -> (store: Self)
        ensures
            store.sessions_view() =~= Map::empty(),
            store.tokens_view() =~= Map::empty(),
            store.is_finite(),
    {
        SessionStore { sessions: new_session_map(), token_index: new_token_map() }
    }

    /// Drop the session of `subdomain`, and its token's index entry.
    pub fn remove_session(&mut self, subdomain: &str)
        ensures
            final(self).is_finite(),
            final(self).sessions_view() == old(self).sessions_view().remove(subdomain@),
            final(self).tokens_view() == (match old(self).sessions_view().get(subdomain@) {
                Some(s) => old(self).tokens_view().remove(s.token_hash@),
                None => old(self).tokens_view(),
            }),
    {
        proof {
            use_type_invariant(&*self);
        }
        let found = session_map_get(&self.sessions, subdomain);
        let mut sessions = new_session_map();
        std::mem::swap(&mut sessions, &mut self.sessions);
        session_map_remove(&mut sessions, subdomain);
        std::mem::swap(&mut sessions, &mut self.sessions);
        match found {
            Some(session) => {
                let mut tokens = new_token_map();
                std::mem::swap(&mut tokens, &mut self.token_index);
                token_map_remove(&mut tokens, session.token_hash.as_str());
                std::mem::swap(&mut tokens, &mut self.token_index);
            },
            None => {
                assert(session_entries(self.sessions) =~= session_entries(old(self).sessions));
            },
        }
    }

    /// The session of `subdomain`, if any.
    pub fn get_session(&self, subdomain: &str) -> (session: Option<Session>)
        ensures
            session == self.sessions_view().get(subdomain@),
    {
        session_map_get(&self.sessions, subdomain)
    }

    /// Store `session` under its subdomain, replacing any session there, and index its token.
    pub fn insert_session(&mut self, session: Session)
        ensures
            final(self).is_finite(),
            final(self).sessions_view() == old(self).sessions_view().insert(
                session.subdomain@,
                session,
            ),
            final(self).tokens_view() == old(self).tokens_view().insert(
                session.token_hash@,
                session.subdomain@,
            ),
    {
        proof {
            use_type_invariant(&*self);
        }
        let subdomain = session.subdomain.clone();
        let token_hash = session.token_hash.clone();
        let indexed = session.subdomain.clone();
        let mut sessions = new_session_map();
        std::mem::swap(&mut sessions, &mut self.sessions);
        session_map_insert(&mut sessions, subdomain, session);
        std::mem::swap(&mut sessions, &mut self.sessions);
        let mut tokens = new_token_map();
        std::mem::swap(&mut tokens, &mut self.token_index);
        token_map_insert(&mut tokens, token_hash, indexed);
        std::mem::swap(&mut tokens, &mut self.token_index);
    }

    /// Whether `subdomain` has a session registered with `token_hash`.
    pub fn verify_and_get_session(&self, subdomain: &str, token_hash: &str) -> (ok: bool)
        ensures
            ok == (self.sessions_view().contains_key(subdomain@)
                && self.sessions_view()[subdomain@].token_hash@ == token_hash@),
    {
        match session_map_get(&self.sessions, subdomain) {
            Some(session) => crate::text::same_text(session.token_hash.as_str(), token_hash),
            None => false,
        }
    }

    /// The number of live sessions.
    pub fn session_count(&self) -> (n: usize)
        ensures
            self.is_finite(),
            n == self.sessions_view().len(),
    {
        proof {
            use_type_invariant(self);
        }
        session_map_len(&self.sessions)
    }

    /// Record a heartbeat for `subdomain` at `now`, if it has a session.
    pub fn touch_heartbeat(&mut self, subdomain: &str, now: u64)
        ensures
            final(self).is_finite(),
            final(self).tokens_view() == old(self).tokens_view(),
            final(self).sessions_view() == (match old(self).sessions_view().get(subdomain@) {
                Some(s) => old(self).sessions_view().insert(
                    subdomain@,
                    Session { last_heartbeat: now, ..s },
                ),
                None => old(self).sessions_view(),
            }),
    {
        proof {
            use_type_invariant(&*self);
        }
        match session_map_get(&self.sessions, subdomain) {
            Some(session) => {
                let mut updated = session;
                updated.touch_heartbeat(now);
                let key = crate::text::slice(subdomain, 0, subdomain.unicode_len());
                assert(key@ =~= subdomain@);
                let mut sessions = new_session_map();
                std::mem::swap(&mut sessions, &mut self.sessions);
                session_map_insert(&mut sessions, key, updated);
                std::mem::swap(&mut sessions, &mut self.sessions);
            },
            None => {},
        }
    }

    /// The subdomains whose sessions have expired at `now`, each once.
    pub fn expired_subdomains(&self, now: u64) -> (expired: Vec<String>)
        ensures
            forall|i: int| 0 <= i < expired@.len() ==> {
                &&& #[trigger] self.sessions_view().contains_key(expired@[i]@)
                &&& self.sessions_view()[expired@[i]@].expired_at(now)
            },
            forall|k: Seq<char>|
                #[trigger] self.sessions_view().contains_key(k) && self.sessions_view()[k].expired_at(now)
                    ==> exists|i: int| 0 <= i < expired@.len() && expired@[i]@ == k,
            forall|i: int, j: int| 0 <= i < j < expired@.len() ==> #[trigger] expired@[i]@ != #[trigger] expired@[j]@,
    {
        let items = session_map_entries(&self.sessions);
        let mut out: Vec<String> = Vec::new();
        let ghost mut idx: Seq<int> = Seq::empty();
        let n = items.len();
        let mut i: usize = 0;
        while i < n
            invariant
                n == items@.len(),
                i <= n,
                idx.len() == out@.len(),
                forall|a: int| 0 <= a < out@.len() ==> {
                    &&& 0 <= #[trigger] idx[a] < i
                    &&& items@[idx[a]].0@ == out@[a]@
                    &&& items@[idx[a]].1.expired_at(now)
                },
                forall|a: int, c: int| 0 <= a < c < out@.len() ==> #[trigger] idx[a] < #[trigger] idx[c],
                forall|b: int| 0 <= b < i && #[trigger] items@[b].1.expired_at(now) ==> exists|a: int| 0 <= a < out@.len() && idx[a] == b,
            decreases n - i,
        {
            let session = &items[i].1;
            if session.is_expired(now) {
                let key = items[i].0.clone();
                let ghost old_idx = idx;
                proof {
                    idx = idx.push(i as int);
                }
                out.push(key);
                proof {
                    assert(idx[out@.len() - 1] == i);
                    assert forall|b: int| 0 <= b < i + 1 && #[trigger] items@[b].1.expired_at(now) implies exists|a: int| 0 <= a < out@.len() && idx[a] == b by {
                        if b == i {
                            assert(idx[out@.len() - 1] == b);
                        } else {
                            let a = choose|a: int| 0 <= a < old_idx.len() && old_idx[a] == b;
                            assert(idx[a] == old_idx[a]);
                        }
                    }
                }
            }
            i = i + 1;
        }
        proof {
            assert forall|k: Seq<char>|
                #[trigger] self.sessions_view().contains_key(k) && self.sessions_view()[k].expired_at(now)
                    implies exists|a: int| 0 <= a < out@.len() && out@[a]@ == k by {
                let b = choose|b: int| 0 <= b < items@.len() && items@[b].0@ == k;
                assert(session_entries(self.sessions).get(items@[b].0@) == Some(items@[b].1));
                assert(items@[b].1.expired_at(now));
                let a = choose|a: int| 0 <= a < out@.len() && idx[a] == b;
                assert(out@[a]@ == k);
            }
            assert forall|a: int| 0 <= a < out@.len() implies {
                &&& #[trigger] self.sessions_view().contains_key(out@[a]@)
                &&& self.sessions_view()[out@[a]@].expired_at(now)
            } by {
                let b = idx[a];
                assert(session_entries(self.sessions).get(items@[b].0@) == Some(items@[b].1));
            }
            assert forall|a: int, c: int| 0 <= a < c < out@.len() implies #[trigger] out@[a]@ != #[trigger] out@[c]@ by {
                assert(idx[a] < idx[c]);
                assert(items@[idx[a]].0@ != items@[idx[c]].0@);
            }
        }
        out
    }
}

/// A session stored by `insert_session` is what `get_session` then gives back for its
/// subdomain, and its token hash verifies for that subdomain.
pub proof fn law_lookup_after_insert(sessions: Map<Seq<char>, Session>, session: Session)
    ensures
        sessions.insert(session.subdomain@, session).get(session.subdomain@) == Some(session),
        sessions.insert(session.subdomain@, session)[session.subdomain@].token_hash@
            == session.token_hash@,
{
}

/// After `remove_session`, the subdomain has no session: requests for it find no tunnel.
pub proof fn law_lookup_after_remove(sessions: Map<Seq<char>, Session>, subdomain: Seq<char>)
    ensures
        sessions.remove(subdomain).get(subdomain) is None,
{
}

/// Storing a session under a new subdomain adds one to the count, and removing it again gives
/// the count back; removing a stored one takes one away.  Every store is finite
/// (`SessionStore::is_finite`, which `new`, the updates and `session_count` ensure).
pub proof fn law_count_after_insert_and_remove(store: SessionStore, session: Session)
    requires
        store.is_finite(),
    ensures
        !store.sessions_view().contains_key(session.subdomain@) ==> {
            &&& store.sessions_view().insert(session.subdomain@, session).len() == store.sessions_view().len() + 1
            &&& store.sessions_view().insert(session.subdomain@, session).remove(session.subdomain@).len()
                == store.sessions_view().len()
        },
        store.sessions_view().contains_key(session.subdomain@) ==> store.sessions_view().remove(
            session.subdomain@,
        ).len() == store.sessions_view().len() - 1,
{
    let m = store.sessions_view();
    let k = session.subdomain@;
    if !m.contains_key(k) {
        assert(m.insert(k, session).remove(k) =~= m);
    }
}

/// Without a new heartbeat, an expired session stays expired as time goes on: the cleanup
/// task never sees it come back.
pub proof fn law_expiry_is_permanent(session: Session, earlier: u64, later: u64)
    requires
        earlier <= later,
        session.expired_at(earlier),
    ensures
        session.expired_at(later),
{
}

/// A heartbeat renews a session: right after `touch_heartbeat(now)` it is expired at `now` only
/// when it has outlived its duration.
pub proof fn law_heartbeat_renews(session: Session, now: u64)
    ensures
        (Session { last_heartbeat: now, ..session }).expired_at(now) == (session.duration_secs matches Some(d)
            && elapsed_ns(now, session.created_at) > d * NANOS_PER_SEC),
{
}

} // verus!

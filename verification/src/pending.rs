//! Requests forwarded to a tunnel client that still wait for their response.
use vstd::prelude::*;
use std::collections::HashMap;
use vstd::std_specs::iter::IteratorSpec;
use crate::session::Session;

verus! {

broadcast use vstd::std_specs::hash::group_hash_axioms;

/// Where the relay's request counter starts: the first id handed out is 1.
pub const FIRST_REQUEST_ID: u64 = 1;

/// The next request id from `counter`, which then moves on by one (wrapping around, as an
/// atomic fetch-and-add does).
pub fn next_request_id(counter: &mut u64) -> (id: u64)
    ensures
        id == *old(counter),
        *final(counter) == (if *old(counter) == u64::MAX { 0 } else { (*old(counter) + 1) as u64 }),
{
    let id = *counter;
    *counter = counter.wrapping_add(1);
    id
}

/// The counter after `k` calls of `next_request_id` starting from `counter`; the id the call
/// numbered `k` returns (counting from zero) is `counter_after(counter, k)`.
pub open spec fn counter_after(counter: u64, k: nat) -> u64
    decreases k,
{
    if k == 0 {
        counter
    } else {
        let c = counter_after(counter, (k - 1) as nat);
        if c == u64::MAX {
            0
        } else {
            (c + 1) as u64
        }
    }
}

/// Successive calls of `next_request_id` hand out distinct, increasing ids: the call numbered
/// `i` returns `counter + i`, as long as fewer ids are asked for than the counter has room for.
/// With the counter starting at 1, every id is at least 1.
pub proof fn law_request_ids_increase(counter: u64, k: nat)
    requires
        counter + k <= u64::MAX,
    ensures
        forall|i: nat| i <= k ==> #[trigger] counter_after(counter, i) == counter + i,
        forall|i: nat, j: nat| i < j <= k ==> #[trigger] counter_after(counter, i) < #[trigger] counter_after(counter, j),
        counter >= 1 ==> forall|i: nat| i <= k ==> #[trigger] counter_after(counter, i) >= 1,
    decreases k,
{
    if k > 0 {
        law_request_ids_increase(counter, (k - 1) as nat);
        assert(counter_after(counter, (k - 1) as nat) == counter + k - 1);
        assert(counter_after(counter, k) == counter + k);
    }
    assert forall|i: nat| i <= k implies #[trigger] counter_after(counter, i) == counter + i by {
        if i < k {
            law_request_ids_increase(counter, (k - 1) as nat);
        }
    }
}

/// How a forwarded request's response begins.
#[derive(Debug)]
pub enum ResponseStart {
    Response { status: u16, headers: Vec<(String, String)> },
    TunnelClosed,
}

/// A forwarded request: the tunnel it went to, and whether its response header is still owed
/// to the waiting browser.
#[derive(Debug, Clone)]
pub struct PendingResponse {
    pub subdomain: String,
    pub header_pending: bool,
}

/// The requests that wait for a response, by request id.
pub struct PendingTable {
    entries: HashMap<u64, PendingResponse>,
}

impl PendingTable {
    /// The waiting requests, by id.
    pub closed spec fn view(&self) -> Map<u64, PendingResponse> {
        self.entries@
    }

    /// A table with no waiting request.
    pub fn new() -> (table: Self)
        ensures
            table@ =~= Map::empty(),
    {
        PendingTable { entries: HashMap::new() }
    }

    /// Record a forwarded request.
    pub fn register_pending_response(&mut self, request_id: u64, pending: PendingResponse)
        ensures
            final(self)@ == old(self)@.insert(request_id, pending),
    {
        self.entries.insert(request_id, pending);
    }

    /// Forget a request.
    pub fn remove_pending_response(&mut self, request_id: u64)
        ensures
            final(self)@ == old(self)@.remove(request_id),
    {
        self.entries.remove(&request_id);
    }

    /// A response header arrived: it is handed on (true) when the request waits and its header
    /// is still owed; after that no header is owed for it.
    pub fn dispatch_response_header(&mut self, request_id: u64) -> (deliver: bool)
        ensures
            deliver == header_delivered(old(self)@, request_id),
            final(self)@ == after_header(old(self)@, request_id),
    {
        match self.entries.get(&request_id) {
            Some(entry) => {
                let deliver = entry.header_pending;
                let updated = PendingResponse {
                    subdomain: entry.subdomain.clone(),
                    header_pending: false,
                };
                self.entries.insert(request_id, updated);
                deliver
            },
            None => false,
        }
    }

    /// A body chunk arrived: it is handed on (true) when the request waits; the request is
    /// forgotten once its last chunk has come.
    pub fn dispatch_response_body(&mut self, request_id: u64, finished: bool) -> (deliver: bool)
        ensures
            deliver == old(self)@.contains_key(request_id),
            final(self)@ == (if finished {
                old(self)@.remove(request_id)
            } else {
                old(self)@
            }),
    {
        let deliver = self.entries.contains_key(&request_id);
        if finished {
            self.entries.remove(&request_id);
        }
        deliver
    }

    /// The tunnel of `subdomain` went away: every request waiting on it is forgotten, and each is
    /// returned with whether its header was still owed (those get a "tunnel closed" answer).
    pub fn abort_pending_for_session(&mut self, subdomain: &str) -> (aborted: Vec<(u64, bool)>)
        ensures
            final(self)@ == after_abort(old(self)@, subdomain@),
            forall|i: int| 0 <= i < aborted@.len() ==> {
                &&& #[trigger] old(self)@.contains_key(aborted@[i].0)
                &&& old(self)@[aborted@[i].0].subdomain@ == subdomain@
                &&& aborted@[i].1 == old(self)@[aborted@[i].0].header_pending
            },
            forall|id: u64| #[trigger] old(self)@.contains_key(id) && old(self)@[id].subdomain@ == subdomain@
                ==> exists|i: int| 0 <= i < aborted@.len() && aborted@[i].0 == id,
            forall|i: int, j: int| 0 <= i < j < aborted@.len() ==> #[trigger] aborted@[i].0 != #[trigger] aborted@[j].0,
    {
        let ghost start = self.entries@;
        let ghost keys = vstd::std_specs::hash::spec_keys_iter(&self.entries).remaining();
        assert(keys.unref().to_set() == start.dom());
        assert(keys.no_duplicates());
        let mut aborted: Vec<(u64, bool)> = Vec::new();
        let ghost mut pos: Seq<int> = Seq::empty();
        for id in iter: self.entries.keys()
            invariant
                self.entries@ == start,
                iter.seq() == keys,
                keys.no_duplicates(),
                keys.unref().to_set() == start.dom(),
                pos.len() == aborted@.len(),
                forall|i: int| 0 <= i < aborted@.len() ==> {
                    &&& 0 <= #[trigger] pos[i] < iter.index()
                    &&& *keys[pos[i]] == aborted@[i].0
                    &&& start.contains_key(aborted@[i].0)
                    &&& start[aborted@[i].0].subdomain@ == subdomain@
                    &&& aborted@[i].1 == start[aborted@[i].0].header_pending
                },
                forall|i: int, j: int| 0 <= i < j < aborted@.len() ==> #[trigger] pos[i] < #[trigger] pos[j],
                forall|b: int| 0 <= b < iter.index() && #[trigger] start[*keys[b]].subdomain@ == subdomain@
                    ==> exists|i: int| 0 <= i < aborted@.len() && pos[i] == b,
        {
            let ghost b = iter.index();
            assert(iter.index() < keys.len());
            assert(id == iter.seq()[iter.index()]);
            assert(*keys[b] == *id);
            assert(keys.unref()[b] == *id);
            assert(start.contains_key(*id));
            let entry = self.entries.get(id);
            match entry {
                Some(e) => {
                    assert(start[*id] == *e);
                    if crate::text::same_text(e.subdomain.as_str(), subdomain) {
                        let ghost old_pos = pos;
                        aborted.push((*id, e.header_pending));
                        proof {
                            pos = pos.push(b);
                            assert forall|i: int| 0 <= i < aborted@.len() implies {
                                &&& 0 <= #[trigger] pos[i] < b + 1
                                &&& *keys[pos[i]] == aborted@[i].0
                                &&& start.contains_key(aborted@[i].0)
                                &&& start[aborted@[i].0].subdomain@ == subdomain@
                                &&& aborted@[i].1 == start[aborted@[i].0].header_pending
                            } by {
                                if i < aborted@.len() - 1 {
                                    assert(pos[i] == old_pos[i]);
                                }
                            }
                            assert forall|c: int| 0 <= c < b + 1 && #[trigger] start[*keys[c]].subdomain@ == subdomain@
                                implies exists|i: int| 0 <= i < aborted@.len() && pos[i] == c by {
                                if c == b {
                                    assert(pos[aborted@.len() - 1] == c);
                                } else {
                                    let i = choose|i: int| 0 <= i < old_pos.len() && old_pos[i] == c;
                                    assert(pos[i] == old_pos[i]);
                                }
                            }
                        }
                    }
                },
                None => {},
            }
        }
        proof {
            assert forall|i: int, j: int| 0 <= i < j < aborted@.len() implies #[trigger] aborted@[i].0 != #[trigger] aborted@[j].0 by {
                assert(pos[i] < pos[j]);
                assert(keys.unref()[pos[i]] == aborted@[i].0);
                assert(keys.unref()[pos[j]] == aborted@[j].0);
                assert(keys[pos[i]] != keys[pos[j]]);
            }
            assert forall|id: u64| #[trigger] start.contains_key(id) && start[id].subdomain@ == subdomain@
                implies exists|i: int| 0 <= i < aborted@.len() && aborted@[i].0 == id by {
                assert(keys.unref().to_set().contains(id));
                let b = choose|b: int| 0 <= b < keys.unref().len() && keys.unref()[b] == id;
                assert(*keys[b] == id);
                let i = choose|i: int| 0 <= i < aborted@.len() && pos[i] == b;
            }
            assert forall|i: int| 0 <= i < aborted@.len() implies {
                &&& #[trigger] start.contains_key(aborted@[i].0)
                &&& start[aborted@[i].0].subdomain@ == subdomain@
                &&& aborted@[i].1 == start[aborted@[i].0].header_pending
            } by {
                assert(0 <= pos[i]);
            }
        }
        let n = aborted.len();
        let mut k: usize = 0;
        while k < n
            invariant
                n == aborted@.len(),
                k <= n,
                self.entries@ == start.filter_keys(|x: u64| !(exists|i: int| 0 <= i < k && aborted@[i].0 == x)),
                forall|i: int| 0 <= i < aborted@.len() ==> {
                    &&& #[trigger] start.contains_key(aborted@[i].0)
                    &&& start[aborted@[i].0].subdomain@ == subdomain@
                    &&& aborted@[i].1 == start[aborted@[i].0].header_pending
                },
                forall|id: u64| #[trigger] start.contains_key(id) && start[id].subdomain@ == subdomain@
                    ==> exists|i: int| 0 <= i < aborted@.len() && aborted@[i].0 == id,
            decreases n - k,
        {
            self.entries.remove(&aborted[k].0);
            k = k + 1;
            assert(self.entries@ =~= start.filter_keys(|x: u64| !(exists|i: int| 0 <= i < k && aborted@[i].0 == x))) by {
                assert forall|x: u64| #[trigger] self.entries@.contains_key(x) == (start.contains_key(x) && !(exists|i: int| 0 <= i < k && aborted@[i].0 == x)) by {
                    if exists|i: int| 0 <= i < k && aborted@[i].0 == x {
                        let i = choose|i: int| 0 <= i < k && aborted@[i].0 == x;
                        if i < k - 1 {
                        }
                    }
                }
            }
        }
        assert(self.entries@ =~= start.filter_keys(|id: u64| start[id].subdomain@ != subdomain@)) by {
            assert forall|x: u64| #[trigger] self.entries@.contains_key(x) == (start.contains_key(x) && start[x].subdomain@ != subdomain@) by {
                if start.contains_key(x) && start[x].subdomain@ == subdomain@ {
                    let i = choose|i: int| 0 <= i < aborted@.len() && aborted@[i].0 == x;
                    assert(exists|i: int| 0 <= i < n && aborted@[i].0 == x);
                    assert(!self.entries@.contains_key(x));
                }
                if exists|i: int| 0 <= i < n && aborted@[i].0 == x {
                    let i = choose|i: int| 0 <= i < n && aborted@[i].0 == x;
                    assert(start.contains_key(aborted@[i].0));
                }
                if start.contains_key(x) && start[x].subdomain@ != subdomain@ {
                    assert(!(exists|i: int| 0 <= i < n && aborted@[i].0 == x));
                    assert(self.entries@.contains_key(x));
                }
            }
        }
        aborted
    }
}

/// The table after a response header for `request_id` arrived.
pub open spec fn after_header(table: Map<u64, PendingResponse>, request_id: u64) -> Map<u64, PendingResponse> {
    if table.contains_key(request_id) {
        table.insert(request_id, PendingResponse { header_pending: false, ..table[request_id] })
    } else {
        table
    }
}

/// Whether a response header for `request_id` is handed on.
pub open spec fn header_delivered(table: Map<u64, PendingResponse>, request_id: u64) -> bool {
    table.contains_key(request_id) && table[request_id].header_pending
}

/// A browser gets at most one response header per request: once a header has been dispatched
/// for a request, a second one for it is not handed on, and the other requests are untouched.
pub proof fn law_header_delivered_at_most_once(table: Map<u64, PendingResponse>, request_id: u64, other: u64)
    ensures
        !header_delivered(after_header(table, request_id), request_id),
        other != request_id ==> after_header(table, request_id).get(other) == table.get(other),
{
}

/// A request whose last body chunk has come is forgotten: later chunks and headers for it are
/// not handed on.
pub proof fn law_finished_request_is_forgotten(table: Map<u64, PendingResponse>, request_id: u64)
    ensures
        !table.remove(request_id).contains_key(request_id),
        !header_delivered(table.remove(request_id), request_id),
{
}

/// The table after the requests waiting on `subdomain` are aborted.
pub open spec fn after_abort(table: Map<u64, PendingResponse>, subdomain: Seq<char>) -> Map<u64, PendingResponse> {
    table.filter_keys(|id: u64| table[id].subdomain@ != subdomain)
}

/// Once a tunnel has disconnected (its waiting requests aborted, its session removed), no
/// request waits on it any more and a new request for its subdomain finds no session, which
/// the relay answers with 404.
pub proof fn law_disconnected_tunnel_is_gone(
    table: Map<u64, PendingResponse>,
    sessions: Map<Seq<char>, Session>,
    subdomain: Seq<char>,
)
    ensures
        forall|id: u64|
            #[trigger] after_abort(table, subdomain).contains_key(id) ==> after_abort(table, subdomain)[id].subdomain@
                != subdomain,
        sessions.remove(subdomain).get(subdomain) is None,
{
}

} // verus!

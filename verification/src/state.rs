//! The shared state of the api: which agents are connected, which are still authenticating,
//! and which client requests are waiting for an agent to answer.

use std::collections::HashMap;
use vstd::prelude::*;

use crate::common::random_u64;
use crate::timelocked_hashmap::{has_key, without_key, TimedHashMap};

verus! {

broadcast use vstd::std_specs::hash::group_hash_axioms;

/// Whole seconds elapsed from `inserted` to `now` (milliseconds); zero if `now` is earlier.
pub open spec fn elapsed_secs(inserted: u64, now: u64) -> int {
    if now >= inserted {
        (now - inserted) / 1000
    } else {
        0
    }
}

/// An entry inserted at `inserted` has outlived `timeout_secs` at time `now`.
pub open spec fn is_expired(inserted: u64, now: u64, timeout_secs: u64) -> bool {
    elapsed_secs(inserted, now) > timeout_secs
}

/// Every entry of `s` before position `n` has expired, and the entry at `n` (if any) has not.
pub open spec fn expired_prefix(s: Seq<(u64, u64)>, n: int, now: u64, timeout_secs: u64) -> bool {
    &&& 0 <= n <= s.len()
    &&& forall|i: int| 0 <= i < n ==> is_expired((#[trigger] s[i]).1, now, timeout_secs)
    &&& n < s.len() ==> !is_expired(s[n].1, now, timeout_secs)
}

/// Whether an entry inserted at `inserted` has outlived `timeout_secs` at time `now`.
pub fn expired(inserted: u64, now: u64, timeout_secs: u64) -> (b: bool)
    ensures
        b == is_expired(inserted, now, timeout_secs),
        b <==> now >= inserted && (now - inserted) / 1000 > timeout_secs,
{
    if now >= inserted {
        (now - inserted) / 1000 > timeout_secs
    } else {
        false
    }
}

/// What expiry means: an entry is expired exactly when the whole seconds elapsed since it was
/// stored exceed the full timeout; an entry stored later than `now` is never expired.
pub proof fn lemma_expiry_is_whole_seconds_past_timeout(inserted: u64, now: u64, timeout_secs: u64)
    ensures
        is_expired(inserted, now, timeout_secs) <==> now >= inserted && (now - inserted) / 1000
            > timeout_secs,
        now < inserted ==> !is_expired(inserted, now, timeout_secs),
        now >= inserted && now - inserted < 1000 * (timeout_secs + 1) ==> !is_expired(
            inserted,
            now,
            timeout_secs,
        ),
        now >= inserted && now - inserted >= 1000 * (timeout_secs + 1) ==> is_expired(
            inserted,
            now,
            timeout_secs,
        ),
{
    if now >= inserted {
        let d = now - inserted;
        if d < 1000 * (timeout_secs + 1) {
            assert(d / 1000 <= timeout_secs) by (nonlinear_arith)
                requires
                    0 <= d < 1000 * (timeout_secs + 1),
            ;
        }
        if d >= 1000 * (timeout_secs + 1) {
            assert(d / 1000 > timeout_secs) by (nonlinear_arith)
                requires
                    d >= 1000 * (timeout_secs + 1),
            ;
        }
    }
}

/// A longer timeout never expires more: whatever has outlived a timeout has outlived every
/// shorter one; and what has expired stays expired as time goes on.
pub proof fn lemma_expiry_monotone(inserted: u64, now: u64, later: u64, shorter: u64, longer: u64)
    requires
        shorter <= longer,
        now <= later,
    ensures
        is_expired(inserted, now, longer) ==> is_expired(inserted, now, shorter),
        is_expired(inserted, now, shorter) ==> is_expired(inserted, later, shorter),
{
    if now >= inserted {
        assert((now - inserted) / 1000 <= (later - inserted) / 1000) by (nonlinear_arith)
            requires
                0 <= now - inserted <= later - inserted,
        ;
    }
}

/// An entry inserted later has been waiting no longer than one inserted earlier.
pub proof fn lemma_elapsed_monotone(t1: u64, t2: u64, now: u64)
    requires
        t1 <= t2,
    ensures
        elapsed_secs(t2, now) <= elapsed_secs(t1, now),
{
    if now >= t2 {
        assert((now - t2) <= (now - t1));
        assert((now - t2) / 1000 <= (now - t1) / 1000) by (nonlinear_arith)
            requires
                0 <= now - t2 <= now - t1,
        ;
    }
}

/// Takes the expired entries off the front of `m`: while the least recently inserted entry has
/// outlived `timeout_secs` at time `now`, it is removed. Returns the removed values, oldest
/// first. Since entries come out oldest first, no expired entry is left behind.
pub fn sweep_map<T>(m: &mut TimedHashMap<T>, now: u64, timeout_secs: u64) -> (gone: Vec<T>)
    requires
        old(m).wf(),
    ensures
        final(m).wf(),
        final(m).clock() == old(m).clock(),
        expired_prefix(old(m).entries(), gone.len() as int, now, timeout_secs),
        final(m).entries() == old(m).entries().skip(gone.len() as int),
        forall|i: int|
            0 <= i < gone.len() ==> #[trigger] gone[i] == old(m).value_map()[old(m).entries()[i].0],
        forall|k: u64| #[trigger]
            final(m).value_map().contains_key(k) ==> old(m).value_map().contains_key(k)
                && final(m).value_map()[k] == old(m).value_map()[k],
        forall|i: int|
            0 <= i < final(m).entries().len() ==> !is_expired(
                (#[trigger] final(m).entries()[i]).1,
                now,
                timeout_secs,
            ),
{
    let mut gone: Vec<T> = Vec::new();
    let ghost old_entries = m.entries();
    let ghost old_vals = m.value_map();
    let ghost old_clock = m.clock();
    loop
        invariant
            m.wf(),
            m.clock() == old_clock,
            gone.len() <= old_entries.len(),
            m.entries() == old_entries.skip(gone.len() as int),
            forall|i: int| 0 <= i < gone.len() ==> is_expired((#[trigger] old_entries[i]).1, now, timeout_secs),
            forall|i: int| 0 <= i < gone.len() ==> #[trigger] gone[i] == old_vals[old_entries[i].0],
            forall|k: u64| #[trigger]
                m.value_map().contains_key(k) ==> old_vals.contains_key(k) && m.value_map()[k]
                    == old_vals[k],
        ensures
            m.wf(),
            m.clock() == old_clock,
            gone.len() <= old_entries.len(),
            m.entries() == old_entries.skip(gone.len() as int),
            forall|i: int| 0 <= i < gone.len() ==> is_expired((#[trigger] old_entries[i]).1, now, timeout_secs),
            forall|i: int| 0 <= i < gone.len() ==> #[trigger] gone[i] == old_vals[old_entries[i].0],
            forall|k: u64| #[trigger]
                m.value_map().contains_key(k) ==> old_vals.contains_key(k) && m.value_map()[k]
                    == old_vals[k],
            m.entries().len() > 0 ==> !is_expired(m.entries()[0].1, now, timeout_secs),
        decreases m.entries().len(),
    {
        let stop = match m.front_with_time() {
            Some((_, _, t)) => !expired(t, now, timeout_secs),
            None => true,
        };
        if stop {
            break;
        }
        let ghost before = m.entries();
        let ghost before_vals = m.value_map();
        match m.pop_front() {
            Some((k, v, t)) => {
                proof {
                    assert(before[0] == old_entries[gone.len() as int]);
                    assert(has_key(before, k));
                    assert(before_vals.contains_key(k));
                    assert(before_vals[k] == old_vals[k]);
                    assert(v == old_vals[old_entries[gone.len() as int].0]);
                }
                let ghost prev = gone@;
                gone.push(v);
                proof {
                    assert forall|i: int| 0 <= i < gone.len() implies #[trigger] gone[i] == old_vals[old_entries[i].0] by {
                        if i < prev.len() {
                            assert(gone[i] == prev[i]);
                        }
                    }
                }
                proof {
                    assert(m.entries() == old_entries.skip(gone.len() as int));
                }
            },
            None => {
                break;
            },
        }
    }
    proof {
        let e = m.entries();
        if e.len() > 0 {
            assert forall|i: int| 0 <= i < e.len() implies !is_expired(
                (#[trigger] e[i]).1,
                now,
                timeout_secs,
            ) by {
                lemma_elapsed_monotone(e[0].1, e[i].1, now);
            }
        }
        assert(expired_prefix(old_entries, gone.len() as int, now, timeout_secs)) by {
            if gone.len() < old_entries.len() {
                assert(e[0] == old_entries[gone.len() as int]);
            }
        }
    }
    gone
}

/// An entry stored at time `t` that has outlived `timeout_secs` at `now` is gone once the
/// expired prefix has been taken off: what is left holds no expired entry, and keys are distinct.
pub proof fn lemma_expired_entry_swept<V>(
    before: TimedHashMap<V>,
    after: TimedHashMap<V>,
    n: int,
    k: u64,
    t: u64,
    now: u64,
    timeout_secs: u64,
)
    requires
        before.wf(),
        after.wf(),
        0 <= n <= before.entries().len(),
        after.entries() == before.entries().skip(n),
        forall|i: int|
            0 <= i < after.entries().len() ==> !is_expired(
                (#[trigger] after.entries()[i]).1,
                now,
                timeout_secs,
            ),
        before.entries().contains((k, t)),
        is_expired(t, now, timeout_secs),
    ensures
        !has_key(after.entries(), k),
        !after.value_map().contains_key(k),
{
    let b = before.entries();
    let a = after.entries();
    let i = choose|i: int| 0 <= i < b.len() && b[i] == (k, t);
    if has_key(a, k) {
        let j = choose|j: int| 0 <= j < a.len() && (#[trigger] a[j]).0 == k;
        assert(a[j] == b[j + n]);
        assert(b[i].0 == b[j + n].0);
        assert(i == j + n);
        assert(!is_expired(a[j].1, now, timeout_secs));
        assert(false);
    }
}

/// The expiry promise: an entry stored at time `t0` (an agent accepting its websocket, or a
/// client request opened, on a clock that had not run past `t0`) is removed by the next sweep
/// made at a time `now` by which it has outlived `timeout_secs`. `stored` is the map right after
/// the insert (as `TimedHashMap::insert`, `connect_websocket` and `State::open_request` state
/// it) and `swept` the map after the sweep (as `State::sweep_expired` states it).
pub proof fn lemma_inserted_entry_expires<V>(
    before: TimedHashMap<V>,
    stored: TimedHashMap<V>,
    swept: TimedHashMap<V>,
    k: u64,
    t0: u64,
    now: u64,
    timeout_secs: u64,
)
    requires
        before.clock() <= t0,
        stored.clock() == (if t0 > before.clock() {
            t0
        } else {
            before.clock()
        }),
        stored.entries() == without_key(before.entries(), k).push((k, stored.clock())),
        is_expired(t0, now, timeout_secs),
        forall|k2: u64, t: u64|
            #[trigger] stored.entries().contains((k2, t)) && is_expired(t, now, timeout_secs)
                ==> !swept.value_map().contains_key(k2),
    ensures
        !swept.value_map().contains_key(k),
{
    let e = stored.entries();
    assert(e[e.len() - 1] == (k, t0));
    assert(e.contains((k, t0)));
}

/// State holds information about all current active connections and nodes.
///
/// `S` is the channel to a connected agent's websocket and `R` the channel to a client request
/// that waits for data; the state only stores them. Times are milliseconds on a monotonic clock.
#[derive(Debug)]
pub struct State<S, R> {
    /// Websockets that are connected, but have not yet completed authentication
    pub unauthenticated_servers: TimedHashMap<S>,
    /// Connected websockets that are valid, and have responded to a ping within the last X seconds
    pub servers: HashMap<u64, S>,
    /// Actively waiting requests that need an agent to respond - that also haven't timed out yet
    pub requests: TimedHashMap<R>,
    /// The base URL of this server
    pub base_url: String,
    /// The instant that the server started
    pub start_time: u64,
}

impl<S, R> State<S, R> {
    /// Both timed maps are well formed.
    pub open spec fn wf(&self) -> bool {
        self.unauthenticated_servers.wf() && self.requests.wf()
    }

    /// An empty state for a server reachable at `base_url`, started at `start_time`.
    pub fn new(base_url: String, start_time: u64) -> (s: Self)
        ensures
            s.wf(),
            s.unauthenticated_servers.entries().len() == 0,
            s.requests.entries().len() == 0,
            s.unauthenticated_servers.value_map() == Map::<u64, S>::empty(),
            s.requests.value_map() == Map::<u64, R>::empty(),
            s.unauthenticated_servers.clock() == 0,
            s.requests.clock() == 0,
            s.servers@ == Map::<u64, S>::empty(),
            s.base_url == base_url,
            s.start_time == start_time,
    {
        State {
            unauthenticated_servers: TimedHashMap::new(),
            servers: HashMap::new(),
            requests: TimedHashMap::new(),
            base_url,
            start_time,
        }
    }

    /// Whether an authenticated agent with this id is connected.
    pub fn is_online(&self, server_id: &u64) -> (b: bool)
        ensures
            b == self.servers@.contains_key(*server_id),
    {
        self.servers.contains_key(server_id)
    }

    /// The channel to the authenticated agent with this id.
    pub fn server(&self, server_id: &u64) -> (r: Option<&S>)
        ensures
            match r {
                Some(s) => self.servers@.contains_key(*server_id) && *s == self.servers@[*server_id],
                None => !self.servers@.contains_key(*server_id),
            },
    {
        self.servers.get(server_id)
    }

    /// Forget the authenticated agent with this id (its websocket is shutting down).
    pub fn remove_server(&mut self, server_id: &u64) -> (r: Option<S>)
        ensures
            final(self).servers@ == old(self).servers@.remove(*server_id),
            final(self).unauthenticated_servers == old(self).unauthenticated_servers,
            final(self).requests == old(self).requests,
            final(self).base_url == old(self).base_url,
            final(self).start_time == old(self).start_time,
            match r {
                Some(s) => old(self).servers@.contains_key(*server_id) && s == old(self).servers@[*server_id],
                None => !old(self).servers@.contains_key(*server_id),
            },
    {
        self.servers.remove(server_id)
    }

    /// Register a client request waiting on the agent `server_id`, at time `now`. When that
    /// agent is not connected nothing changes and the result is `None`; otherwise a fresh random
    /// request id is chosen, `tx` is stored under it and the id is returned.
    pub fn open_request(&mut self, server_id: u64, tx: R, now: u64) -> (r: Option<u64>)
        requires
            old(self).wf(),
        ensures
            final(self).wf(),
            final(self).servers == old(self).servers,
            final(self).unauthenticated_servers == old(self).unauthenticated_servers,
            final(self).base_url == old(self).base_url,
            final(self).start_time == old(self).start_time,
            r is None <==> !old(self).servers@.contains_key(server_id),
            r is None ==> final(self).requests == old(self).requests,
            match r {
                Some(id) => {
                    &&& final(self).requests.value_map() == old(self).requests.value_map().insert(
                        id,
                        tx,
                    )
                    &&& final(self).requests.entries() == without_key(
                        old(self).requests.entries(),
                        id,
                    ).push((id, final(self).requests.clock()))
                    &&& final(self).requests.clock() == (if now > old(self).requests.clock() {
                        now
                    } else {
                        old(self).requests.clock()
                    })
                },
                None => true,
            },
    {
        if !self.servers.contains_key(&server_id) {
            return None;
        }
        let id = random_u64();
        self.requests.insert(id, tx, now);
        Some(id)
    }

    /// Take the waiting request `request_id` out of the state, if it is still there.
    pub fn take_request(&mut self, request_id: &u64) -> (r: Option<R>)
        requires
            old(self).wf(),
        ensures
            final(self).wf(),
            final(self).servers == old(self).servers,
            final(self).unauthenticated_servers == old(self).unauthenticated_servers,
            final(self).base_url == old(self).base_url,
            final(self).start_time == old(self).start_time,
            final(self).requests.value_map() == old(self).requests.value_map().remove(*request_id),
            final(self).requests.entries() == without_key(old(self).requests.entries(), *request_id),
            match r {
                Some(v) => old(self).requests.value_map().contains_key(*request_id) && v
                    == old(self).requests.value_map()[*request_id],
                None => !old(self).requests.value_map().contains_key(*request_id),
            },
    {
        self.requests.remove(request_id)
    }

    /// Remove what has outlived its timeout at time `now`: agents that connected more than
    /// `auth_timeout_secs` seconds ago and have not authenticated, and client requests waiting
    /// for more than `request_timeout_secs` seconds. The channels of the removed agents are
    /// returned, oldest first, so that their connections can be closed; the channels of the
    /// removed requests are dropped, which ends those requests.
    pub fn sweep_expired(&mut self, now: u64, auth_timeout_secs: u64, request_timeout_secs: u64) -> (closed: Vec<S>)
        requires
            old(self).wf(),
        ensures
            final(self).wf(),
            final(self).servers == old(self).servers,
            final(self).base_url == old(self).base_url,
            final(self).start_time == old(self).start_time,
            expired_prefix(
                old(self).unauthenticated_servers.entries(),
                closed.len() as int,
                now,
                auth_timeout_secs,
            ),
            final(self).unauthenticated_servers.entries() == old(self).unauthenticated_servers.entries().skip(
                closed.len() as int,
            ),
            forall|i: int|
                0 <= i < closed.len() ==> #[trigger] closed[i] == old(self).unauthenticated_servers.value_map()[old(
                    self,
                ).unauthenticated_servers.entries()[i].0],
            forall|k: u64| #[trigger]
                final(self).unauthenticated_servers.value_map().contains_key(k) ==> old(
                    self,
                ).unauthenticated_servers.value_map().contains_key(k)
                    && final(self).unauthenticated_servers.value_map()[k] == old(
                    self,
                ).unauthenticated_servers.value_map()[k],
            exists|n: int|
                expired_prefix(old(self).requests.entries(), n, now, request_timeout_secs)
                    && final(self).requests.entries() == old(self).requests.entries().skip(n),
            forall|k: u64| #[trigger]
                final(self).requests.value_map().contains_key(k) ==> old(
                    self,
                ).requests.value_map().contains_key(k) && final(self).requests.value_map()[k]
                    == old(self).requests.value_map()[k],
            forall|i: int|
                0 <= i < final(self).unauthenticated_servers.entries().len() ==> !is_expired(
                    (#[trigger] final(self).unauthenticated_servers.entries()[i]).1,
                    now,
                    auth_timeout_secs,
                ),
            forall|i: int|
                0 <= i < final(self).requests.entries().len() ==> !is_expired(
                    (#[trigger] final(self).requests.entries()[i]).1,
                    now,
                    request_timeout_secs,
                ),
            forall|k: u64, t: u64|
                #[trigger] old(self).unauthenticated_servers.entries().contains((k, t)) && is_expired(
                    t,
                    now,
                    auth_timeout_secs,
                ) ==> !final(self).unauthenticated_servers.value_map().contains_key(k),
            forall|k: u64, t: u64|
                #[trigger] old(self).requests.entries().contains((k, t)) && is_expired(
                    t,
                    now,
                    request_timeout_secs,
                ) ==> !final(self).requests.value_map().contains_key(k),
    {
        let ghost old_unauth = self.unauthenticated_servers;
        let ghost old_requests = self.requests;
        let closed = sweep_map(&mut self.unauthenticated_servers, now, auth_timeout_secs);
        let dropped = sweep_map(&mut self.requests, now, request_timeout_secs);
        assert(expired_prefix(old(self).requests.entries(), dropped.len() as int, now, request_timeout_secs));
        proof {
            assert forall|k: u64, t: u64|
                #[trigger] old_unauth.entries().contains((k, t)) && is_expired(
                    t,
                    now,
                    auth_timeout_secs,
                ) implies !self.unauthenticated_servers.value_map().contains_key(k) by {
                lemma_expired_entry_swept(
                    old_unauth,
                    self.unauthenticated_servers,
                    closed.len() as int,
                    k,
                    t,
                    now,
                    auth_timeout_secs,
                );
            }
            assert forall|k: u64, t: u64|
                #[trigger] old_requests.entries().contains((k, t)) && is_expired(
                    t,
                    now,
                    request_timeout_secs,
                ) implies !self.requests.value_map().contains_key(k) by {
                lemma_expired_entry_swept(
                    old_requests,
                    self.requests,
                    dropped.len() as int,
                    k,
                    t,
                    now,
                    request_timeout_secs,
                );
            }
        }
        closed
    }

    /// Whole seconds since the server started, at time `now`.
    pub fn uptime(&self, now: u64) -> (r: u64)
        ensures
            r == elapsed_secs(self.start_time, now),
    {
        if now >= self.start_time {
            (now - self.start_time) / 1000
        } else {
            0
        }
    }
}

} // verus!

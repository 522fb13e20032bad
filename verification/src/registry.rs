//! The session registry and the router's decisions over it.
//!
//! The registry maps each client address to its one session.  It has a single
//! logical owner — the router — which is the only code that creates, looks
//! up, or evicts entries; the sessions' own activities reach their session
//! through the owner as well, so the table itself needs no further guarding.
//! The central decision is `route_inbound`: deliver an inbound payload to the
//! client's live session, or create one, or — when the session has timed out
//! but has not been evicted yet — evict it and recreate, without ever losing
//! the triggering payload.

use vstd::prelude::*;

use crate::addr::ClientAddr;
use crate::session::{Session, SessionAbs};

verus! {

/// Some entry of the registry serves this client.
pub open spec fn has_client(ss: Seq<SessionAbs>, c: ClientAddr) -> bool {
    exists|i: int| 0 <= i < ss.len() && (#[trigger] ss[i]).client == c
}

/// The index of the entry serving this client (meaningful under
/// `distinct_clients`, which makes it unique).
pub open spec fn idx_of(ss: Seq<SessionAbs>, c: ClientAddr) -> int {
    choose|i: int| 0 <= i < ss.len() && (#[trigger] ss[i]).client == c
}

/// The one session serving this client.
pub open spec fn session_of(ss: Seq<SessionAbs>, c: ClientAddr) -> SessionAbs {
    ss[idx_of(ss, c)]
}

/// No two entries serve the same client: the registry holds at most one
/// session per client address.
pub open spec fn distinct_clients(ss: Seq<SessionAbs>) -> bool {
    forall|i: int, j: int|
        0 <= i < j < ss.len() ==> (#[trigger] ss[i]).client != (#[trigger] ss[j]).client
}

/// Every entry satisfies the session invariant.
pub open spec fn all_wf(ss: Seq<SessionAbs>) -> bool {
    forall|i: int| 0 <= i < ss.len() ==> (#[trigger] ss[i]).wf()
}

/// A registry step on behalf of one client leaves every other client's view
/// of the registry exactly as it was.
pub open spec fn others_unchanged(
    pre: Seq<SessionAbs>,
    post: Seq<SessionAbs>,
    c: ClientAddr,
) -> bool {
    forall|d: ClientAddr|
        d != c ==> (#[trigger] has_client(post, d)) == has_client(pre, d)
            && (has_client(pre, d) ==> session_of(post, d) == session_of(pre, d))
}

/// Under distinctness, an entry found at some index is the entry the lookup
/// functions speak of.
proof fn lemma_found(ss: Seq<SessionAbs>, c: ClientAddr, i: int)
    requires
        distinct_clients(ss),
        0 <= i < ss.len(),
        ss[i].client == c,
    ensures
        has_client(ss, c),
        idx_of(ss, c) == i,
        session_of(ss, c) == ss[i],
{
    assert(has_client(ss, c));
    let j = idx_of(ss, c);
    assert(0 <= j < ss.len() && ss[j].client == c);
    if i < j {
        assert(ss[i].client != ss[j].client);
    } else if j < i {
        assert(ss[j].client != ss[i].client);
    }
}

/// Replacing an entry by one serving the same client keeps the registry
/// invariants, binds the client to the replacement, and touches nobody else.
proof fn lemma_update_same_client(ss: Seq<SessionAbs>, i: int, s2: SessionAbs)
    requires
        distinct_clients(ss),
        all_wf(ss),
        0 <= i < ss.len(),
        s2.client == ss[i].client,
        s2.wf(),
    ensures
        ({
            let post = ss.update(i, s2);
            &&& distinct_clients(post)
            &&& all_wf(post)
            &&& has_client(post, s2.client)
            &&& session_of(post, s2.client) == s2
            &&& others_unchanged(ss, post, s2.client)
        }),
{
    let c = s2.client;
    let post = ss.update(i, s2);
    assert forall|k: int, l: int| 0 <= k < l < post.len() implies
        (#[trigger] post[k]).client != (#[trigger] post[l]).client by {
        if k == i {
            assert(post[l] == ss[l]);
            assert(ss[i].client != ss[l].client);
        } else if l == i {
            assert(post[k] == ss[k]);
            assert(ss[k].client != ss[i].client);
        } else {
            assert(post[k] == ss[k]);
            assert(post[l] == ss[l]);
        }
    }
    assert forall|k: int| 0 <= k < post.len() implies (#[trigger] post[k]).wf() by {
        if k != i {
            assert(post[k] == ss[k]);
            assert(ss[k].wf());
        }
    }
    lemma_found(post, c, i);
    assert forall|d: ClientAddr| d != c implies
        (#[trigger] has_client(post, d)) == has_client(ss, d)
            && (has_client(ss, d) ==> session_of(post, d) == session_of(ss, d)) by {
        if has_client(ss, d) {
            let j = idx_of(ss, d);
            assert(0 <= j < ss.len() && ss[j].client == d);
            assert(j != i);
            assert(post[j] == ss[j]);
            lemma_found(ss, d, j);
            lemma_found(post, d, j);
        }
        if has_client(post, d) {
            let j = idx_of(post, d);
            assert(0 <= j < post.len() && post[j].client == d);
            assert(j != i);
            assert(post[j] == ss[j]);
            lemma_found(ss, d, j);
        }
    }
}

/// Evicting the entry at `i` (by swapping the last entry into its place) and
/// appending a replacement for the same client keeps the registry invariants,
/// binds the client to the replacement, and touches nobody else.
proof fn lemma_remove_push(ss: Seq<SessionAbs>, i: int, s2: SessionAbs)
    requires
        distinct_clients(ss),
        all_wf(ss),
        0 <= i < ss.len(),
        s2.client == ss[i].client,
        s2.wf(),
    ensures
        ({
            let post = ss.update(i, ss.last()).drop_last().push(s2);
            &&& distinct_clients(post)
            &&& all_wf(post)
            &&& has_client(post, s2.client)
            &&& session_of(post, s2.client) == s2
            &&& others_unchanged(ss, post, s2.client)
        }),
{
    let c = s2.client;
    let n = ss.len() as int;
    let post = ss.update(i, ss.last()).drop_last().push(s2);
    assert(post.len() == n);
    assert(post[n - 1] == s2);
    assert forall|k: int| 0 <= k < n - 1 implies
        #[trigger] post[k] == (if k == i { ss[n - 1] } else { ss[k] }) by {
    }
    assert forall|k: int, l: int| 0 <= k < l < post.len() implies
        (#[trigger] post[k]).client != (#[trigger] post[l]).client by {
        if l == n - 1 {
            if k == i {
                assert(post[k] == ss[n - 1]);
                assert(ss[i].client != ss[n - 1].client);
            } else {
                assert(post[k] == ss[k]);
                assert(ss[k].client != ss[i].client);
            }
        } else {
            if k == i {
                assert(post[k] == ss[n - 1]);
                assert(post[l] == ss[l]);
                assert(ss[l].client != ss[n - 1].client);
            } else if l == i {
                assert(post[k] == ss[k]);
                assert(post[l] == ss[n - 1]);
                assert(ss[k].client != ss[n - 1].client);
            } else {
                assert(post[k] == ss[k]);
                assert(post[l] == ss[l]);
            }
        }
    }
    assert forall|k: int| 0 <= k < post.len() implies (#[trigger] post[k]).wf() by {
        if k == n - 1 {
        } else if k == i {
            assert(post[k] == ss[n - 1]);
            assert(ss[n - 1].wf());
        } else {
            assert(post[k] == ss[k]);
            assert(ss[k].wf());
        }
    }
    lemma_found(post, c, n - 1);
    assert forall|d: ClientAddr| d != c implies
        (#[trigger] has_client(post, d)) == has_client(ss, d)
            && (has_client(ss, d) ==> session_of(post, d) == session_of(ss, d)) by {
        if has_client(ss, d) {
            let j = idx_of(ss, d);
            assert(0 <= j < n && ss[j].client == d);
            assert(j != i);
            lemma_found(ss, d, j);
            if j == n - 1 {
                assert(i < n - 1);
                assert(post[i] == ss[n - 1]);
                lemma_found(post, d, i);
            } else {
                assert(post[j] == ss[j]);
                lemma_found(post, d, j);
            }
        }
        if has_client(post, d) {
            let j = idx_of(post, d);
            assert(0 <= j < n && post[j].client == d);
            assert(j != n - 1);
            if j == i {
                assert(post[j] == ss[n - 1]);
                lemma_found(ss, d, n - 1);
            } else {
                assert(post[j] == ss[j]);
                lemma_found(ss, d, j);
            }
        }
    }
}

/// Appending a session for a client nobody serves yet keeps the registry
/// invariants, binds that client to it, and touches nobody else.
proof fn lemma_push_new(ss: Seq<SessionAbs>, s2: SessionAbs)
    requires
        distinct_clients(ss),
        all_wf(ss),
        !has_client(ss, s2.client),
        s2.wf(),
    ensures
        ({
            let post = ss.push(s2);
            &&& distinct_clients(post)
            &&& all_wf(post)
            &&& has_client(post, s2.client)
            &&& session_of(post, s2.client) == s2
            &&& others_unchanged(ss, post, s2.client)
        }),
{
    let c = s2.client;
    let n = ss.len() as int;
    let post = ss.push(s2);
    assert forall|k: int, l: int| 0 <= k < l < post.len() implies
        (#[trigger] post[k]).client != (#[trigger] post[l]).client by {
        if l == n {
            assert(post[k] == ss[k]);
            assert(ss[k].client != c);
        } else {
            assert(post[k] == ss[k]);
            assert(post[l] == ss[l]);
        }
    }
    assert forall|k: int| 0 <= k < post.len() implies (#[trigger] post[k]).wf() by {
        if k != n {
            assert(post[k] == ss[k]);
            assert(ss[k].wf());
        }
    }
    lemma_found(post, c, n);
    assert forall|d: ClientAddr| d != c implies
        (#[trigger] has_client(post, d)) == has_client(ss, d)
            && (has_client(ss, d) ==> session_of(post, d) == session_of(ss, d)) by {
        if has_client(ss, d) {
            let j = idx_of(ss, d);
            assert(0 <= j < n && ss[j].client == d);
            assert(post[j] == ss[j]);
            lemma_found(ss, d, j);
            lemma_found(post, d, j);
        }
        if has_client(post, d) {
            let j = idx_of(post, d);
            assert(0 <= j < post.len() && post[j].client == d);
            assert(j != n);
            assert(post[j] == ss[j]);
            lemma_found(ss, d, j);
        }
    }
}

/// What the router did with an inbound payload.
#[derive(Clone, Copy, PartialEq, Eq, Structural, Debug)]
pub enum RouteOutcome {
    /// First datagram from this client: a session was created and the
    /// payload queued as its first.
    Created,
    /// The client's live session accepted the payload.
    Delivered,
    /// The client's session had timed out without being evicted yet: it was
    /// evicted, a fresh session created, and the triggering payload queued
    /// to the fresh one.
    Recreated,
    /// The relay has been cancelled: no session is created any more and the
    /// payload is dropped.
    Rejected,
    /// The registry is at its configured maximum session count and the
    /// client has no session yet: the payload is turned away rather than
    /// growing the table.
    AtCapacity,
}

/// The maximum session count a registry is created with when none is chosen:
/// effectively unbounded.
pub const DEFAULT_MAX_SESSIONS: usize = usize::MAX;

/// The table mapping each client address to its one active session.
pub struct Registry {
    sessions: Vec<Session>,
    max_sessions: usize,
    cancelled: bool,
}

impl View for Registry {
    type V = Seq<SessionAbs>;

    closed spec fn view(&self) -> Seq<SessionAbs> {
        self.sessions@.map_values(|s: Session| s@)
    }
}

impl Registry {
    /// Registry invariant: at most one session per client, every session
    /// well formed.
    pub open spec fn wf(self) -> bool {
        &&& distinct_clients(self@)
        &&& all_wf(self@)
    }

    /// Whether the relay has been cancelled: from then on the router creates
    /// no sessions, and every registered session has been torn down.
    pub closed spec fn spec_cancelled(self) -> bool {
        self.cancelled
    }

    /// The most sessions this registry will hold at once.
    pub closed spec fn spec_max(self) -> int {
        self.max_sessions as int
    }

    pub fn new() -> (r: Registry)
        ensures
            r.wf(),
            r@.len() == 0,
            !r.spec_cancelled(),
            r.spec_max() == DEFAULT_MAX_SESSIONS,
    {
        Registry::with_max_sessions(DEFAULT_MAX_SESSIONS)
    }

    /// A registry that holds at most `max` concurrent sessions; a datagram
    /// from a new client beyond that is turned away (`AtCapacity`).
    pub fn with_max_sessions(max: usize) -> (r: Registry)
        ensures
            r.wf(),
            r@.len() == 0,
            !r.spec_cancelled(),
            r.spec_max() == max,
    {
        let r = Registry { sessions: Vec::new(), max_sessions: max, cancelled: false };
        proof {
            assert(r@ =~= Seq::<SessionAbs>::empty());
        }
        r
    }

    pub fn is_cancelled(&self) -> (r: bool)
        ensures
            r == self.spec_cancelled(),
    {
        self.cancelled
    }

    /// Cancellation, propagated from outside to the router and to every
    /// session at once: session creation stops, and every registered session
    /// is torn down on the spot — each forwarding loop stops at its next
    /// step, each upstream reader at its next read deadline.
    pub fn cancel(&mut self)
        requires
            old(self).wf(),
        ensures
            final(self).wf(),
            final(self).spec_cancelled(),
            final(self)@.len() == old(self)@.len(),
            forall|k: int| 0 <= k < old(self)@.len()
                ==> final(self)@[k] == old(self)@[k].abs_cancel(),
    {
        self.cancelled = true;
        let mut i: usize = 0;
        while i < self.sessions.len()
            invariant
                old(self).wf(),
                self.spec_cancelled(),
                i <= self.sessions.len(),
                self@.len() == self.sessions@.len(),
                self@.len() == old(self)@.len(),
                forall|k: int| 0 <= k < i ==> self@[k] == old(self)@[k].abs_cancel(),
                forall|k: int| i <= k < self@.len() ==> self@[k] == old(self)@[k],
            decreases self.sessions.len() - i,
        {
            let ghost pre = self@;
            proof {
                assert(old(self)@[i as int].wf());
            }
            let sref = &mut self.sessions[i];
            sref.cancel();
            proof {
                assert(self@ =~= pre.update(i as int, old(self)@[i as int].abs_cancel()));
            }
            i = i + 1;
        }
        proof {
            assert forall|k: int, l: int| 0 <= k < l < self@.len() implies
                (#[trigger] self@[k]).client != (#[trigger] self@[l]).client by {
                assert(self@[k] == old(self)@[k].abs_cancel());
                assert(self@[l] == old(self)@[l].abs_cancel());
                assert(old(self)@[k].client != old(self)@[l].client);
            }
            assert forall|k: int| 0 <= k < self@.len() implies (#[trigger] self@[k]).wf() by {
                assert(self@[k] == old(self)@[k].abs_cancel());
                assert(old(self)@[k].wf());
            }
        }
    }

    /// How many sessions are registered, live or awaiting eviction.
    pub fn len(&self) -> (n: usize)
        ensures
            n == self@.len(),
    {
        self.sessions.len()
    }

    /// Whether some session — live or not — serves this client.
    pub fn contains(&self, client: ClientAddr) -> (r: bool)
        ensures
            r == has_client(self@, client),
    {
        match self.find(client) {
            Some(i) => {
                proof {
                    assert(0 <= i < self@.len() && self@[i as int].client == client);
                }
                true
            }
            None => false,
        }
    }

    /// The registry entry for this client, if any.
    fn find(&self, client: ClientAddr) -> (r: Option<usize>)
        ensures
            match r {
                Some(i) => 0 <= i < self@.len() && self@[i as int].client == client,
                None => !has_client(self@, client),
            },
    {
        let mut i: usize = 0;
        proof {
            assert(self@.len() == self.sessions@.len());
        }
        while i < self.sessions.len()
            invariant
                i <= self.sessions.len(),
                self@.len() == self.sessions@.len(),
                forall|k: int| 0 <= k < i ==> (#[trigger] self@[k]).client != client,
            decreases self.sessions.len() - i,
        {
            if self.sessions[i].client() == client {
                return Some(i);
            }
            i = i + 1;
        }
        None
    }

    /// The router's central decision, one inbound datagram at a time: deliver
    /// the payload to the client's live session; or create a session for a
    /// client never seen (`Created`); or, on the stale-session race — the
    /// session timed out but its entry is still here — evict the stale entry
    /// and deliver the payload to a brand-new session (`Recreated`).  In
    /// every case the payload ends up, byte for byte, as the last queued
    /// payload of a live session for this client, and no other client's
    /// session is touched.
    pub fn route_inbound(&mut self, client: ClientAddr, payload: Vec<u8>) -> (o: RouteOutcome)
        requires
            old(self).wf(),
        ensures
            final(self).wf(),
            final(self).spec_cancelled() == old(self).spec_cancelled(),
            final(self).spec_max() == old(self).spec_max(),
            (o == RouteOutcome::Rejected) <==> old(self).spec_cancelled(),
            (o == RouteOutcome::AtCapacity) <==> (!old(self).spec_cancelled()
                && !has_client(old(self)@, client)
                && old(self)@.len() >= old(self).spec_max()),
            (o == RouteOutcome::Created) <==> (!old(self).spec_cancelled()
                && !has_client(old(self)@, client)
                && old(self)@.len() < old(self).spec_max()),
            (o == RouteOutcome::Delivered) <==> (!old(self).spec_cancelled()
                && has_client(old(self)@, client)
                && session_of(old(self)@, client).live()),
            (o == RouteOutcome::Recreated) <==> (!old(self).spec_cancelled()
                && has_client(old(self)@, client)
                && !session_of(old(self)@, client).live()),
            (o == RouteOutcome::Rejected || o == RouteOutcome::AtCapacity)
                ==> final(self)@ == old(self)@,
            (o == RouteOutcome::Created || o == RouteOutcome::Recreated)
                ==> session_of(final(self)@, client)
                    == SessionAbs::fresh(client).abs_enqueue(payload@),
            o == RouteOutcome::Delivered
                ==> session_of(final(self)@, client)
                    == session_of(old(self)@, client).abs_enqueue(payload@),
            (o == RouteOutcome::Created || o == RouteOutcome::Delivered
                || o == RouteOutcome::Recreated) ==> ({
                &&& has_client(final(self)@, client)
                &&& others_unchanged(old(self)@, final(self)@, client)
                &&& session_of(final(self)@, client).live()
                &&& session_of(final(self)@, client).inbound.len() > 0
                &&& session_of(final(self)@, client).inbound.last() == payload@
            }),
    {
        if self.cancelled {
            // The relay is shutting down: nothing is created any more.
            return RouteOutcome::Rejected;
        }
        match self.find(client) {
            None => {
                if self.sessions.len() >= self.max_sessions {
                    // The configured safeguard: beyond the cap, datagrams
                    // from unknown clients are turned away.
                    return RouteOutcome::AtCapacity;
                }
                let mut s = Session::new(client);
                // A fresh session is live, so this enqueue cannot fail; a
                // failure here would be a critical internal error.
                let _ = s.enqueue(payload);
                let ghost snew = s@;
                self.sessions.push(s);
                proof {
                    assert(self@ =~= old(self)@.push(snew));
                    assert(snew.wf());
                    lemma_push_new(old(self)@, snew);
                }
                RouteOutcome::Created
            }
            Some(i) => {
                proof {
                    lemma_found(old(self)@, client, i as int);
                    assert(old(self)@[i as int].wf());
                    assert(self@.len() == self.sessions@.len());
                }
                let sref = &mut self.sessions[i];
                let r = sref.enqueue(payload);
                match r {
                    Ok(()) => {
                        proof {
                            let snew = old(self)@[i as int].abs_enqueue(payload@);
                            assert(self@ =~= old(self)@.update(i as int, snew));
                            assert(snew.wf());
                            lemma_update_same_client(old(self)@, i as int, snew);
                        }
                        RouteOutcome::Delivered
                    }
                    Err(p) => {
                        // The stale-session race: the session timed out after
                        // the lookup saw it.  Evict it and start over with the
                        // payload the failed delivery handed back.
                        proof {
                            assert(self@ =~= old(self)@);
                            assert(self.sessions@.len() == old(self)@.len());
                        }
                        let _stale = self.sessions.swap_remove(i);
                        let mut s = Session::new(client);
                        // A fresh session is live, so this enqueue cannot
                        // fail: the triggering payload is not lost.
                        let _ = s.enqueue(p);
                        let ghost snew = s@;
                        self.sessions.push(s);
                        proof {
                            assert(self@ =~= old(self)@.update(
                                i as int,
                                old(self)@.last(),
                            ).drop_last().push(snew));
                            assert(snew.wf());
                            lemma_remove_push(old(self)@, i as int, snew);
                        }
                        RouteOutcome::Recreated
                    }
                }
            }
        }
    }

    /// One empty wait of this client's forwarding loop (see
    /// `Session::idle_wait`).  Yields whether the session has now timed out,
    /// or nothing if no session serves the client.
    pub fn idle_tick(&mut self, client: ClientAddr) -> (r: Option<bool>)
        requires
            old(self).wf(),
        ensures
            final(self).wf(),
            final(self).spec_cancelled() == old(self).spec_cancelled(),
            !has_client(old(self)@, client) ==> (r is None && final(self)@ == old(self)@),
            has_client(old(self)@, client) ==> ({
                let pre = session_of(old(self)@, client);
                &&& r == Some(pre.abs_idle_wait().1)
                &&& has_client(final(self)@, client)
                &&& session_of(final(self)@, client) == pre.abs_idle_wait().0
                &&& others_unchanged(old(self)@, final(self)@, client)
            }),
    {
        match self.find(client) {
            None => None,
            Some(i) => {
                proof {
                    lemma_found(old(self)@, client, i as int);
                    assert(old(self)@[i as int].wf());
                    assert(self@.len() == self.sessions@.len());
                }
                let sref = &mut self.sessions[i];
                let done = sref.idle_wait();
                proof {
                    let snew = old(self)@[i as int].abs_idle_wait().0;
                    assert(self@ =~= old(self)@.update(i as int, snew));
                    lemma_update_same_client(old(self)@, i as int, snew);
                }
                Some(done)
            }
        }
    }

    /// One receive attempt of this client's forwarding loop (see
    /// `Session::next_forward`).  Yields nothing if no session serves the
    /// client; otherwise the oldest queued payload, if any, exactly as the
    /// router queued it.
    pub fn take_forward(&mut self, client: ClientAddr) -> (r: Option<Option<Vec<u8>>>)
        requires
            old(self).wf(),
        ensures
            final(self).wf(),
            final(self).spec_cancelled() == old(self).spec_cancelled(),
            !has_client(old(self)@, client) ==> (r is None && final(self)@ == old(self)@),
            has_client(old(self)@, client) ==> ({
                let pre = session_of(old(self)@, client);
                &&& r is Some
                &&& has_client(final(self)@, client)
                &&& session_of(final(self)@, client) == pre.abs_take().0
                &&& others_unchanged(old(self)@, final(self)@, client)
                &&& (pre.inbound.len() == 0 ==> r == Some(Option::<Vec<u8>>::None))
                &&& (pre.inbound.len() > 0 ==> (r matches Some(x) && x matches Some(p)
                    && p@ == pre.inbound.first()))
            }),
    {
        match self.find(client) {
            None => None,
            Some(i) => {
                proof {
                    lemma_found(old(self)@, client, i as int);
                    assert(old(self)@[i as int].wf());
                    assert(self@.len() == self.sessions@.len());
                }
                let sref = &mut self.sessions[i];
                let taken = sref.next_forward();
                proof {
                    let snew = old(self)@[i as int].abs_take().0;
                    assert(self@ =~= old(self)@.update(i as int, snew));
                    assert(snew.wf());
                    lemma_update_same_client(old(self)@, i as int, snew);
                }
                Some(taken)
            }
        }
    }

    /// The decision of this client's upstream reader when its read deadline
    /// passes (see `Session::reader_keeps_running`): keep reading exactly as
    /// long as a session serves the client and has not timed out.
    pub fn reader_keeps_running(&self, client: ClientAddr) -> (r: bool)
        requires
            self.wf(),
        ensures
            r == (has_client(self@, client) && session_of(self@, client).live()),
    {
        match self.find(client) {
            None => false,
            Some(i) => {
                proof {
                    lemma_found(self@, client, i as int);
                    assert(self@.len() == self.sessions@.len());
                }
                self.sessions[i].reader_keeps_running()
            }
        }
    }
}

} // verus!

//! The guarantees the relay core gives, stated once and proved, over the
//! abstract session state and the registry's view.  Each law is phrased over
//! the same spec functions that the executable functions' contracts use, so
//! it applies to every run of the relay.

use vstd::prelude::*;

use crate::addr::ClientAddr;
use crate::registry::distinct_clients;
use crate::session::{SessionAbs, IDLE_LIMIT};

verus! {

/// The payloads a session's forwarding loop hands to the upstream socket, in
/// the order it takes them, if from now on it only receives (no empty waits).
pub open spec fn forwarded_payloads(s: SessionAbs) -> Seq<Seq<u8>>
    decreases s.inbound.len(),
{
    if s.inbound.len() == 0 {
        Seq::empty()
    } else {
        seq![s.inbound.first()] + forwarded_payloads(s.abs_take().0)
    }
}

/// Per-client FIFO: draining a session by successive forwarding steps yields
/// exactly the payloads the router queued, byte for byte and in the order
/// they were queued.
pub proof fn law_fifo_per_client(s: SessionAbs)
    ensures
        forwarded_payloads(s) == s.inbound,
    decreases s.inbound.len(),
{
    if s.inbound.len() == 0 {
        assert(forwarded_payloads(s) =~= s.inbound);
    } else {
        law_fifo_per_client(s.abs_take().0);
        assert(forwarded_payloads(s) =~= seq![s.inbound.first()] + s.inbound.drop_first());
        assert(seq![s.inbound.first()] + s.inbound.drop_first() =~= s.inbound);
    }
}

/// Content fidelity towards the upstream server: a payload a live session
/// accepts is eventually handed to the upstream sender exactly as it was
/// accepted — it is the last payload the session forwards.
pub proof fn law_content_fidelity(s: SessionAbs, p: Seq<u8>)
    requires
        s.live(),
    ensures
        forwarded_payloads(s.abs_enqueue(p)).len() > 0,
        forwarded_payloads(s.abs_enqueue(p)).last() == p,
{
    law_fifo_per_client(s.abs_enqueue(p));
}

/// At most one session per client: in a well-formed registry, two entries
/// serving the same client are the same entry.
pub proof fn law_single_session_per_client(ss: Seq<SessionAbs>, c: ClientAddr, i: int, j: int)
    requires
        distinct_clients(ss),
        0 <= i < ss.len(),
        0 <= j < ss.len(),
        ss[i].client == c,
        ss[j].client == c,
    ensures
        i == j,
{
    if i < j {
        assert(ss[i].client != ss[j].client);
    } else if j < i {
        assert(ss[j].client != ss[i].client);
    }
}

/// The session state after `n` consecutive empty waits.
pub open spec fn abs_idle_n(s: SessionAbs, n: nat) -> SessionAbs
    decreases n,
{
    if n == 0 {
        s
    } else {
        abs_idle_n(s.abs_idle_wait().0, (n - 1) as nat)
    }
}

/// The timed-out flag is monotonic: once a session has timed out, no
/// transition — accepting a payload, forwarding one, or waiting — revives it.
pub proof fn law_timeout_monotonic(s: SessionAbs, p: Seq<u8>)
    requires
        s.timed_out,
    ensures
        s.abs_enqueue(p).timed_out,
        s.abs_take().0.timed_out,
        s.abs_idle_wait().0.timed_out,
{
}

/// A timed-out session stays timed out through any number of further waits.
proof fn lemma_idle_n_stays_timed_out(s: SessionAbs, n: nat)
    requires
        s.timed_out,
    ensures
        abs_idle_n(s, n).timed_out,
    decreases n,
{
    if n > 0 {
        lemma_idle_n_stays_timed_out(s.abs_idle_wait().0, (n - 1) as nat);
    }
}

/// Idle eviction: a client that sends nothing while the forwarding loop's
/// remaining idle budget runs out leaves its session timed out — after which
/// the router's next routing step for that client evicts and recreates (see
/// `Registry::route_inbound`).
pub proof fn law_idle_eviction(s: SessionAbs, n: nat)
    requires
        s.wf(),
        s.idle_waits + n >= IDLE_LIMIT,
    ensures
        abs_idle_n(s, n).timed_out,
    decreases n,
{
    if s.timed_out {
        lemma_idle_n_stays_timed_out(s, n);
    } else if n == 0 {
        assert(s.idle_waits == IDLE_LIMIT);
    } else {
        let s1 = s.abs_idle_wait().0;
        assert(s1.wf());
        law_idle_eviction(s1, (n - 1) as nat);
    }
}

/// Response routing: a response read by one client's session is addressed to
/// that client and to nobody else — two sessions serving different clients
/// can never deliver into each other's traffic.
pub proof fn law_response_routing(sa: SessionAbs, sb: SessionAbs, pa: Seq<u8>, pb: Seq<u8>)
    requires
        sa.client != sb.client,
    ensures
        sa.abs_deliver(pa).0 == sa.client,
        sa.abs_deliver(pa).1 == pa,
        sa.abs_deliver(pa).0 != sb.abs_deliver(pb).0,
{
}

/// The pairs the dispatcher dequeues, in the order it dequeues them.
pub open spec fn dispatched(q: Seq<(ClientAddr, Seq<u8>)>) -> Seq<(ClientAddr, Seq<u8>)>
    decreases q.len(),
{
    if q.len() == 0 {
        Seq::empty()
    } else {
        seq![q.first()] + dispatched(q.drop_first())
    }
}

/// Dispatcher fidelity: draining the outbound queue sends every queued
/// payload exactly once, unchanged, to exactly the client recorded with it,
/// in queue order.
pub proof fn law_dispatch_order(q: Seq<(ClientAddr, Seq<u8>)>)
    ensures
        dispatched(q) == q,
    decreases q.len(),
{
    if q.len() == 0 {
        assert(dispatched(q) =~= q);
    } else {
        law_dispatch_order(q.drop_first());
        assert(dispatched(q) =~= seq![q.first()] + q.drop_first());
        assert(seq![q.first()] + q.drop_first() =~= q);
    }
}

/// A write failure is recoverable: one forwarding step hands out the oldest
/// payload and leaves the session live, whatever becomes of the socket write;
/// the next step still hands out the next payload, so one lost write never
/// costs more than its own payload.
pub proof fn law_write_failure_recoverable(s: SessionAbs)
    requires
        s.live(),
        s.inbound.len() >= 2,
    ensures
        s.abs_take().1 == Some(s.inbound[0]),
        s.abs_take().0.live(),
        s.abs_take().0.abs_take().1 == Some(s.inbound[1]),
        s.abs_take().0.abs_take().0.live(),
{
    assert(s.abs_take().0.inbound[0] == s.inbound[1]);
}

} // verus!

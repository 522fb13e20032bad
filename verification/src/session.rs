//! One client's relay session: the per-client FIFO of payloads on their way
//! to the upstream server, the count of consecutive empty waits, and the
//! idle decision that both of the session's activities live by.
//!
//! A session runs as two concurrent activities.  The forwarding loop waits on
//! the inbound queue with a bounded wait, sends every payload it receives to
//! the upstream server, and after `IDLE_LIMIT` consecutive empty waits sets
//! the timed-out flag — it is the sole writer of that flag.  The upstream
//! reader reads response datagrams and hands them to the dispatcher; when its
//! own read deadline passes it consults the flag and terminates only if the
//! forwarding loop has already made the idle decision.

use std::collections::VecDeque;
use vstd::prelude::*;

use crate::addr::ClientAddr;
use crate::outbound::OutboundItem;

verus! {

/// Consecutive empty waits on the inbound queue after which a session
/// declares its client idle and terminates.
pub const IDLE_LIMIT: u64 = 10;

/// Length of one wait on the inbound queue, in milliseconds.
pub const IDLE_WAIT_MS: u64 = 18000;

/// Read deadline of the upstream socket, in milliseconds: slightly longer
/// than one inbound wait, so the upstream reader never reaches its own
/// deadline before the forwarding loop has had the chance to decide idleness.
pub const UPSTREAM_READ_DEADLINE_MS: u64 = IDLE_WAIT_MS + 100;

/// Largest datagram the relay forwards, in bytes.
pub const MAX_DATAGRAM: usize = 64 * 1024;

/// The mathematical state of one session: the client it serves, the payloads
/// queued for the upstream server (oldest first), the count of consecutive
/// empty waits, and whether the session has declared its client idle.
#[verifier::ext_equal]
pub struct SessionAbs {
    pub client: ClientAddr,
    pub inbound: Seq<Seq<u8>>,
    pub idle_waits: int,
    pub timed_out: bool,
}

impl SessionAbs {
    /// Internal invariant: the idle count never passes the budget, and a
    /// session that has spent the whole budget has timed out.
    pub open spec fn wf(self) -> bool {
        &&& 0 <= self.idle_waits <= IDLE_LIMIT
        &&& (self.idle_waits == IDLE_LIMIT ==> self.timed_out)
    }

    /// A session is live until its forwarding loop declares the client idle.
    pub open spec fn live(self) -> bool {
        !self.timed_out
    }

    /// The state of a session the instant it is created.
    pub open spec fn fresh(client: ClientAddr) -> SessionAbs {
        SessionAbs { client, inbound: Seq::empty(), idle_waits: 0, timed_out: false }
    }

    /// What accepting one payload from the router does: a live session
    /// appends it to the inbound FIFO; a timed-out one turns it away.
    pub open spec fn abs_enqueue(self, p: Seq<u8>) -> SessionAbs {
        if self.timed_out {
            self
        } else {
            SessionAbs { inbound: self.inbound.push(p), ..self }
        }
    }

    /// What one successful receive by the forwarding loop does: the oldest
    /// payload leaves the FIFO and the idle count starts over.
    pub open spec fn abs_take(self) -> (SessionAbs, Option<Seq<u8>>) {
        if self.inbound.len() == 0 {
            (self, None)
        } else {
            (
                SessionAbs { inbound: self.inbound.drop_first(), idle_waits: 0, ..self },
                Some(self.inbound.first()),
            )
        }
    }

    /// What one empty wait does: the idle count grows, and on reaching the
    /// budget the session times out, once and for all.
    pub open spec fn abs_idle_wait(self) -> (SessionAbs, bool) {
        if self.timed_out {
            (self, true)
        } else if self.idle_waits + 1 >= IDLE_LIMIT {
            (SessionAbs { idle_waits: self.idle_waits + 1, timed_out: true, ..self }, true)
        } else {
            (SessionAbs { idle_waits: self.idle_waits + 1, ..self }, false)
        }
    }

    /// What the upstream reader does with a response payload: address it to
    /// the one client this session serves, bytes untouched.
    pub open spec fn abs_deliver(self, p: Seq<u8>) -> (ClientAddr, Seq<u8>) {
        (self.client, p)
    }

    /// What cancellation from outside does: the session is timed out on the
    /// spot, as if its idle budget had run out, and both of its activities
    /// will terminate; nothing else is touched.
    pub open spec fn abs_cancel(self) -> SessionAbs {
        SessionAbs { timed_out: true, ..self }
    }
}

/// One client's session, as the relay holds it.
pub struct Session {
    client: ClientAddr,
    inbound: VecDeque<Vec<u8>>,
    idle_waits: u64,
    timed_out: bool,
}

impl View for Session {
    type V = SessionAbs;

    closed spec fn view(&self) -> SessionAbs {
        SessionAbs {
            client: self.client,
            inbound: self.inbound@.map_values(|p: Vec<u8>| p@),
            idle_waits: self.idle_waits as int,
            timed_out: self.timed_out,
        }
    }
}

impl Session {
    /// A new session for a client first observed (or observed again after an
    /// idle eviction): empty queue, idle count zero, live.
    pub fn new(client: ClientAddr) -> (s: Session)
        ensures
            s@ == SessionAbs::fresh(client),
    {
        let s = Session {
            client,
            inbound: VecDeque::new(),
            idle_waits: 0,
            timed_out: false,
        };
        proof {
            assert(s@ =~= SessionAbs::fresh(client));
        }
        s
    }

    /// The router hands a payload in.  A live session accepts it at the back
    /// of its FIFO; a timed-out session has no receiver any more, and the
    /// payload comes back untouched so the router can recreate the session
    /// without losing it.
    pub fn enqueue(&mut self, payload: Vec<u8>) -> (r: Result<(), Vec<u8>>)
        ensures
            final(self)@ == old(self)@.abs_enqueue(payload@),
            !old(self)@.timed_out ==> r is Ok,
            old(self)@.timed_out ==> (r matches Err(p) && p@ == payload@
                && final(self)@ == old(self)@),
    {
        if self.timed_out {
            Err(payload)
        } else {
            let ghost pre = self@;
            self.inbound.push_back(payload);
            proof {
                assert(self@ =~= pre.abs_enqueue(payload@));
            }
            Ok(())
        }
    }

    /// One receive attempt of the forwarding loop.  If a payload is queued,
    /// the oldest one comes out — exactly the bytes the router put in — and
    /// the idle count starts over; the caller then writes it to the upstream
    /// socket.  An empty queue yields nothing and changes nothing.
    pub fn next_forward(&mut self) -> (r: Option<Vec<u8>>)
        ensures
            final(self)@ == old(self)@.abs_take().0,
            old(self)@.inbound.len() == 0 ==> r is None,
            old(self)@.inbound.len() > 0 ==> (r matches Some(p)
                && p@ == old(self)@.inbound.first()),
    {
        let ghost pre = self@;
        match self.inbound.pop_front() {
            Some(p) => {
                self.idle_waits = 0;
                proof {
                    assert(self@ =~= pre.abs_take().0);
                }
                Some(p)
            }
            None => {
                proof {
                    assert(self@ =~= pre.abs_take().0);
                }
                None
            }
        }
    }

    /// One wait on the inbound queue ran out with nothing received.  The
    /// idle count grows; on reaching `IDLE_LIMIT` the session times out and
    /// the forwarding loop must stop.  Returns whether it must.
    pub fn idle_wait(&mut self) -> (done: bool)
        requires
            old(self)@.wf(),
        ensures
            final(self)@ == old(self)@.abs_idle_wait().0,
            done == old(self)@.abs_idle_wait().1,
            done == final(self)@.timed_out,
            final(self)@.wf(),
    {
        if self.timed_out {
            true
        } else {
            let ghost pre = self@;
            self.idle_waits = self.idle_waits + 1;
            if self.idle_waits >= IDLE_LIMIT {
                self.timed_out = true;
                proof {
                    assert(self@ =~= pre.abs_idle_wait().0);
                }
                true
            } else {
                proof {
                    assert(self@ =~= pre.abs_idle_wait().0);
                }
                false
            }
        }
    }

    /// The upstream reader read a response datagram: wrap it for the
    /// dispatcher, addressed to this session's client, bytes untouched.
    pub fn deliver_response(&self, payload: Vec<u8>) -> (item: OutboundItem)
        ensures
            item@ == self@.abs_deliver(payload@),
    {
        OutboundItem::new(self.client, payload)
    }

    /// The upstream reader's read deadline passed without a datagram: it
    /// keeps reading exactly as long as the forwarding loop has not made the
    /// idle decision.  The reader never outlives that decision, and never
    /// terminates before it.
    pub fn reader_keeps_running(&self) -> (r: bool)
        ensures
            r == self@.live(),
    {
        !self.timed_out
    }

    /// Tears the session down from outside: it times out on the spot, so its
    /// forwarding loop stops at its next step and its upstream reader at its
    /// next deadline, without waiting for the idle budget.
    pub fn cancel(&mut self)
        requires
            old(self)@.wf(),
        ensures
            final(self)@ == old(self)@.abs_cancel(),
            final(self)@.wf(),
    {
        self.timed_out = true;
        proof {
            assert(self@ =~= old(self)@.abs_cancel());
        }
    }

    /// The client this session serves; immutable for the session's lifetime.
    pub fn client(&self) -> (c: ClientAddr)
        ensures
            c == self@.client,
    {
        self.client
    }

    /// Whether the forwarding loop has declared the client idle.
    pub fn is_timed_out(&self) -> (r: bool)
        ensures
            r == self@.timed_out,
    {
        self.timed_out
    }

    /// How many payloads are queued and not yet forwarded.
    pub fn pending(&self) -> (n: usize)
        ensures
            n == self@.inbound.len(),
    {
        self.inbound.len()
    }
}

} // verus!

//! The shared outbound queue: every payload travelling back towards a client
//! is queued here as a (client, payload) pair, and a single dispatcher drains
//! the queue and writes each payload to the client-facing socket, addressed
//! to exactly the client recorded in the pair.

use std::collections::VecDeque;
use vstd::prelude::*;

use crate::addr::ClientAddr;

verus! {

/// One client-bound payload: the client it must be sent to, and the bytes,
/// verbatim as they were read from the upstream socket.
pub struct OutboundItem {
    pub client: ClientAddr,
    pub payload: Vec<u8>,
}

impl View for OutboundItem {
    type V = (ClientAddr, Seq<u8>);

    open spec fn view(&self) -> (ClientAddr, Seq<u8>) {
        (self.client, self.payload@)
    }
}

impl OutboundItem {
    pub fn new(client: ClientAddr, payload: Vec<u8>) -> (item: OutboundItem)
        ensures
            item@ == (client, payload@),
    {
        OutboundItem { client, payload }
    }
}

/// The many-producer/one-consumer FIFO between the sessions' upstream
/// readers and the dispatcher.  Unbounded; items are never reordered and
/// never lost.
pub struct OutboundQueue {
    items: VecDeque<OutboundItem>,
    closed: bool,
}

impl View for OutboundQueue {
    type V = Seq<(ClientAddr, Seq<u8>)>;

    closed spec fn view(&self) -> Seq<(ClientAddr, Seq<u8>)> {
        self.items@.map_values(|i: OutboundItem| i@)
    }
}

impl OutboundQueue {
    /// Whether the relay is shutting down: once closed, the dispatcher may
    /// stop as soon as it finds the queue drained.
    pub closed spec fn spec_closed(&self) -> bool {
        self.closed
    }

    pub fn new() -> (q: OutboundQueue)
        ensures
            q@ == Seq::<(ClientAddr, Seq<u8>)>::empty(),
            !q.spec_closed(),
    {
        let q = OutboundQueue { items: VecDeque::new(), closed: false };
        proof {
            assert(q@ =~= Seq::<(ClientAddr, Seq<u8>)>::empty());
        }
        q
    }

    /// Cancellation reaches the dispatcher here: the queue is marked closed.
    /// Items already queued stay and are still delivered; the dispatcher
    /// stops once it has drained them.
    pub fn close(&mut self)
        ensures
            final(self)@ == old(self)@,
            final(self).spec_closed(),
    {
        self.closed = true;
    }

    pub fn is_closed(&self) -> (r: bool)
        ensures
            r == self.spec_closed(),
    {
        self.closed
    }

    pub fn len(&self) -> (n: usize)
        ensures
            n == self@.len(),
    {
        self.items.len()
    }

    /// A session's upstream reader hands a client-bound item in.  The pair is
    /// appended unchanged: the queue is FIFO for items of the same producer.
    pub fn push_response(&mut self, item: OutboundItem)
        ensures
            final(self)@ == old(self)@.push(item@),
            final(self).spec_closed() == old(self).spec_closed(),
    {
        self.items.push_back(item);
        proof {
            assert(self@ =~= old(self)@.push(item@));
        }
    }

    /// The dispatcher takes the oldest queued item, exactly as it was queued:
    /// same client, same bytes.
    pub fn pop_next(&mut self) -> (r: Option<OutboundItem>)
        ensures
            final(self).spec_closed() == old(self).spec_closed(),
            old(self)@.len() == 0 ==> r is None && final(self)@ == old(self)@,
            old(self)@.len() > 0 ==> (r matches Some(item)
                && item@ == old(self)@[0]
                && final(self)@ == old(self)@.drop_first()),
    {
        let r = self.items.pop_front();
        proof {
            if old(self)@.len() > 0 {
                assert(self@ =~= old(self)@.drop_first());
            } else {
                assert(self@ =~= old(self)@);
            }
        }
        r
    }
}

} // verus!

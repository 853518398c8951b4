use vstd::prelude::*;

verus! {

/// An outbound record waiting for a free receive descriptor.
#[derive(Clone, Copy, Debug, PartialEq, Eq, Structural)]
pub enum MuxerRx {
    ConnResponse { local_port: u32, peer_port: u32, result: i32 },
    OpRequest { local_port: u32, peer_port: u32 },
    OpResponse { local_port: u32, peer_port: u32 },
    CreditRequest { local_port: u32, peer_port: u32, fwd_cnt: u32 },
    CreditUpdate { local_port: u32, peer_port: u32, fwd_cnt: u32 },
    ListenResponse { local_port: u32, peer_port: u32, result: i32 },
    AcceptResponse { local_port: u32, peer_port: u32, result: i32 },
    GetnameResponse { local_port: u32, peer_port: u32, addr: u32, port: u16, result: i32 },
    Reset { local_port: u32, peer_port: u32 },
}

/// The queue's contents after `rx` is enqueued: when the queue is already at
/// capacity the oldest record makes room for it.
pub open spec fn enqueued(q: Seq<MuxerRx>, capacity: nat, rx: MuxerRx) -> Seq<MuxerRx> {
    if q.len() >= capacity {
        q.drop_first().push(rx)
    } else {
        q.push(rx)
    }
}

/// Bounded FIFO of pending outbound records, oldest first.
pub struct MuxerRxQ {
    records: Vec<MuxerRx>,
    capacity: usize,
}

impl View for MuxerRxQ {
    type V = Seq<MuxerRx>;

    closed spec fn view(&self) -> Seq<MuxerRx> {
        self.records@
    }
}

impl MuxerRxQ {
    pub closed spec fn cap(&self) -> nat {
        self.capacity as nat
    }

    pub closed spec fn wf(&self) -> bool {
        0 < self.capacity && self.records@.len() <= self.capacity
    }

    pub fn new(capacity: usize) -> (r: MuxerRxQ)
        requires
            capacity > 0,
        ensures
            r.wf(),
            r@ == Seq::<MuxerRx>::empty(),
            r.cap() == capacity,
    {
        MuxerRxQ { records: Vec::new(), capacity }
    }

    pub fn len(&self) -> (r: usize)
        ensures
            r == self@.len(),
    {
        self.records.len()
    }

    pub fn capacity(&self) -> (r: usize)
        ensures
            r == self.cap(),
    {
        self.capacity
    }

    pub fn is_empty(&self) -> (r: bool)
        ensures
            r == (self@.len() == 0),
    {
        self.records.len() == 0
    }

    /// Appends `rx`; returns `false` when the oldest record had to be dropped.
    pub fn push(&mut self, rx: MuxerRx) -> (kept_all: bool)
        requires
            old(self).wf(),
        ensures
            final(self).wf(),
            final(self).cap() == old(self).cap(),
            final(self)@ == enqueued(old(self)@, old(self).cap(), rx),
            kept_all == (old(self)@.len() < old(self).cap()),
    {
        let kept_all = self.records.len() < self.capacity;
        if !kept_all {
            self.records.remove(0);
        }
        self.records.push(rx);
        kept_all
    }

    /// Takes the oldest record.
    pub fn pop(&mut self) -> (r: Option<MuxerRx>)
        requires
            old(self).wf(),
        ensures
            final(self).wf(),
            final(self).cap() == old(self).cap(),
            old(self)@.len() == 0 ==> r is None && final(self)@ == old(self)@,
            old(self)@.len() > 0 ==> r == Some(old(self)@[0]) && final(self)@ == old(
                self,
            )@.drop_first(),
    {
        if self.records.len() == 0 {
            None
        } else {
            Some(self.records.remove(0))
        }
    }
}

} // verus!

use vstd::prelude::*;

use crate::packet::PacketHeader;

verus! {

/// A receive descriptor chain posted by the guest: its head index and the
/// number of bytes it can hold, header included.
#[derive(Clone, Copy, Debug, PartialEq, Eq, Structural)]
pub struct RxDescriptor {
    pub index: u16,
    pub len: u32,
}

/// A descriptor chain that the host has filled and handed back.
#[derive(Debug)]
pub struct UsedElem {
    pub index: u16,
    pub len: u32,
    pub hdr: PacketHeader,
    pub payload: Vec<u8>,
}

/// The bytes carried by a run of used descriptors, in ring order.
pub open spec fn payload_bytes(used: Seq<UsedElem>) -> Seq<u8>
    decreases used.len(),
{
    if used.len() == 0 {
        Seq::<u8>::empty()
    } else {
        payload_bytes(used.drop_last()) + used.last().payload@
    }
}

/// The stream receive virtqueue: the available descriptors, of which the
/// first `next` have been taken, and the used ring.
pub struct StreamQueue {
    avail: Vec<RxDescriptor>,
    next_avail: usize,
    used: Vec<UsedElem>,
}

impl StreamQueue {
    pub closed spec fn avail(&self) -> Seq<RxDescriptor> {
        self.avail@
    }

    pub closed spec fn next(&self) -> nat {
        self.next_avail as nat
    }

    pub closed spec fn used(&self) -> Seq<UsedElem> {
        self.used@
    }

    pub open spec fn wf(&self) -> bool {
        self.next() <= self.avail().len()
    }

    /// The descriptors not yet taken, in ring order.
    pub open spec fn pending(&self) -> Seq<RxDescriptor> {
        self.avail().skip(self.next() as int)
    }

    pub fn new(avail: Vec<RxDescriptor>) -> (r: StreamQueue)
        ensures
            r.wf(),
            r.avail() == avail@,
            r.next() == 0,
            r.used() == Seq::<UsedElem>::empty(),
    {
        StreamQueue { avail, next_avail: 0, used: Vec::new() }
    }

    /// Number of descriptors not yet taken.
    pub fn pending_len(&self) -> (r: usize)
        requires
            self.wf(),
        ensures
            r == self.pending().len(),
    {
        self.avail.len() - self.next_avail
    }

    /// Takes the next available descriptor.
    pub fn pop(&mut self) -> (r: Option<RxDescriptor>)
        requires
            old(self).wf(),
        ensures
            final(self).wf(),
            final(self).avail() == old(self).avail(),
            final(self).used() == old(self).used(),
            old(self).pending().len() == 0 ==> r is None && final(self).next() == old(self).next(),
            old(self).pending().len() > 0 ==> r == Some(old(self).pending()[0])
                && final(self).next() == old(self).next() + 1,
    {
        if self.next_avail < self.avail.len() {
            let d = self.avail[self.next_avail];
            self.next_avail = self.next_avail + 1;
            Some(d)
        } else {
            None
        }
    }

    /// Puts the most recently taken descriptor back at the head of the ring.
    pub fn undo_pop(&mut self)
        requires
            old(self).wf(),
            old(self).next() > 0,
        ensures
            final(self).wf(),
            final(self).avail() == old(self).avail(),
            final(self).used() == old(self).used(),
            final(self).next() == old(self).next() - 1,
    {
        self.next_avail = self.next_avail - 1;
    }

    /// Hands a filled descriptor back to the guest.
    pub fn add_used(&mut self, index: u16, len: u32, hdr: PacketHeader, payload: Vec<u8>)
        requires
            old(self).wf(),
        ensures
            final(self).wf(),
            final(self).avail() == old(self).avail(),
            final(self).next() == old(self).next(),
            final(self).used().len() == old(self).used().len() + 1,
            final(self).used().drop_last() == old(self).used(),
            final(self).used().last() == (UsedElem { index, len, hdr, payload }),
    {
        self.used.push(UsedElem { index, len, hdr, payload });
        proof {
            assert(self.used@.drop_last() =~= old(self).used@);
        }
    }

    /// Number of used elements.
    pub fn used_len(&self) -> (r: usize)
        ensures
            r == self.used().len(),
    {
        self.used.len()
    }

    /// The used element at position `i`.
    pub fn used_at(&self, i: usize) -> (r: &UsedElem)
        requires
            i < self.used().len(),
        ensures
            *r == self.used()[i as int],
    {
        &self.used[i]
    }
}

} // verus!

use vstd::prelude::*;
use crate::errors::Full;
use crate::ring::{RecvRef, Ring, SendRef};

verus! {

/// A fixed-capacity ring buffer of reusable slots for a single party (or
/// externally synchronized parties): the channel's ring without the
/// waiter machinery. The capacity is a compile-time constant so the
/// buffer can live in static storage.
pub struct StaticThingBuf<T, const CAP: usize> {
    pub ring: Ring<T>,
}

impl<T, const CAP: usize> StaticThingBuf<T, CAP> {
    pub open spec fn wf(&self) -> bool {
        &&& self.ring.wf()
        &&& !self.ring.closed()
        &&& self.ring.cap() == CAP
    }

    /// Delivered and pending entries, in claim order.
    pub open spec fn history(&self) -> Seq<Option<T>> {
        self.ring.history()
    }

    pub fn new() -> (b: StaticThingBuf<T, CAP>)
        requires
            1 <= CAP <= 0x1000_0000,
        ensures
            b.wf(),
            b.ring.head() == 0,
            b.ring.tail() == 0,
            b.history() == Seq::<Option<T>>::empty(),
            b.ring.quiescent(),
    {
        StaticThingBuf { ring: Ring::new(CAP) }
    }

    pub fn capacity(&self) -> (n: usize)
        ensures
            n == CAP,
    {
        CAP
    }

    /// Number of claimed entries not yet consumed.
    pub fn len(&self) -> (n: u64)
        requires
            self.wf(),
        ensures
            n == self.ring.tail() - self.ring.head(),
    {
        self.ring.len()
    }

    pub fn is_empty(&self) -> (b: bool)
        requires
            self.wf(),
        ensures
            b == (self.ring.tail() == self.ring.head()),
    {
        self.len() == 0
    }

    /// Claim a slot for writing. Fails with Full exactly when no slot is
    /// writable right now. The claim is published with `publish`.
    pub fn push_ref(&mut self) -> (r: Result<SendRef, Full>)
        requires
            old(self).wf(),
            old(self).ring.tail() + old(self).ring.rsize() + 1 <= u64::MAX,
        ensures
            final(self).wf(),
            r is Ok <==> old(self).ring.can_push(),
            r matches Ok(s) ==> final(self).ring.valid_send_ref(s) && final(self).history()
                == old(self).history().push(None) && final(self).ring.send_ref_pos(s)
                == old(self).ring.tail() && (old(self).ring.quiescent()
                ==> final(self).ring.quiescent_except(s.idx as int)),
            r is Err ==> final(self).history() == old(self).history() && final(self).ring.tail()
                == old(self).ring.tail() && final(self).ring.can_pop()
                == old(self).ring.can_pop(),
            r is Err && old(self).ring.quiescent() ==> final(self).ring.quiescent(),
            final(self).ring.slots@ == old(self).ring.slots@,
            final(self).ring.head() == old(self).ring.head(),
    {
        match self.ring.push_claim() {
            Ok(s) => Ok(s),
            Err(_) => Err(Full),
        }
    }

    /// Publish a claimed slot with the given value.
    pub fn publish(&mut self, r: SendRef, value: T)
        requires
            old(self).wf(),
            old(self).ring.valid_send_ref(r),
        ensures
            final(self).wf(),
            final(self).history() == old(self).history().update(
                old(self).ring.send_ref_pos(r),
                Some(value),
            ),
            final(self).ring.head() == old(self).ring.head(),
            final(self).ring.tail() == old(self).ring.tail(),
            forall|i: int| 0 <= i < old(self).ring.rsize() ==> final(self).ring.gen_at(i)
                >= old(self).ring.gen_at(i),
            old(self).ring.quiescent_except(r.idx as int) ==> final(self).ring.quiescent()
                && final(self).ring.can_pop(),
    {
        self.ring.publish(r, value);
    }

    /// Claim the oldest published entry for reading, if any. The entry is
    /// read with `take` and recycled with `release`.
    pub fn pop_ref(&mut self) -> (r: Option<RecvRef>)
        requires
            old(self).wf(),
        ensures
            final(self).wf(),
            r is Some <==> old(self).ring.can_pop(),
            r matches Some(rr) ==> final(self).ring.valid_recv_ref(rr) && final(self).ring.recv_ref_pos(rr) == old(self).ring.head() && final(self).ring.head()
                == old(self).ring.head() + 1 && final(self).ring.slots@[rr.idx as int].value
                == final(self).history()[old(self).ring.head()]
                && final(self).history()[old(self).ring.head()] is Some
                && (old(self).ring.quiescent()
                ==> final(self).ring.quiescent_except(rr.idx as int)),
            r is Some ==> old(self).ring.tail() > old(self).ring.head(),
            r is None ==> final(self).ring.head() == old(self).ring.head()
                && final(self).ring.can_push() == old(self).ring.can_push(),
            r is None && old(self).ring.quiescent() ==> final(self).ring.quiescent(),
            final(self).ring.slots@ == old(self).ring.slots@,
            final(self).history() == old(self).history(),
            final(self).ring.tail() == old(self).ring.tail(),
    {
        match self.ring.pop_claim() {
            Ok(rr) => Some(rr),
            Err(_) => None,
        }
    }

    /// Move the value out of a claimed read slot: exactly the entry that
    /// was published at the claim's position.
    pub fn take(&mut self, r: &RecvRef) -> (v: T)
        requires
            old(self).wf(),
            old(self).ring.valid_recv_ref(*r),
            old(self).ring.slots@[r.idx as int].value is Some,
        ensures
            final(self).wf(),
            final(self).ring.valid_recv_ref(*r),
            Some(v) == old(self).history()[old(self).ring.recv_ref_pos(*r)],
            final(self).history() == old(self).history(),
            forall|i: int| 0 <= i < old(self).ring.rsize() ==> final(self).ring.gen_at(i)
                == old(self).ring.gen_at(i),
            old(self).ring.quiescent_except(r.idx as int) ==> final(self).ring.quiescent_except(
                r.idx as int,
            ),
    {
        self.ring.take(r)
    }

    /// Recycle a read slot for the next lap; whatever allocation is still
    /// in it stays for reuse.
    pub fn release(&mut self, r: RecvRef)
        requires
            old(self).wf(),
            old(self).ring.valid_recv_ref(r),
        ensures
            final(self).wf(),
            final(self).history() == old(self).history(),
            final(self).ring.head() == old(self).ring.head(),
            final(self).ring.tail() == old(self).ring.tail(),
            forall|i: int| 0 <= i < old(self).ring.rsize() ==> final(self).ring.gen_at(i)
                >= old(self).ring.gen_at(i),
            old(self).ring.quiescent_except(r.idx as int) ==> final(self).ring.quiescent(),
    {
        self.ring.release(r);
    }

    /// Push a value without holding a claim across calls: claim, write,
    /// publish in one step.
    pub fn push_with(&mut self, value: T) -> (r: Result<(), Full>)
        requires
            old(self).wf(),
            old(self).ring.tail() + old(self).ring.rsize() + 1 <= u64::MAX,
        ensures
            final(self).wf(),
            r is Ok <==> old(self).ring.can_push(),
            r is Ok ==> final(self).history() == old(self).history().push(Some(value)),
            r is Err ==> final(self).history() == old(self).history() && final(self).ring.can_pop()
                == old(self).ring.can_pop() && final(self).ring.can_push()
                == old(self).ring.can_push(),
            forall|i: int| 0 <= i < old(self).ring.rsize() ==> final(self).ring.gen_at(i)
                >= old(self).ring.gen_at(i),
            old(self).ring.quiescent() ==> final(self).ring.quiescent(),
            old(self).ring.quiescent() && r is Ok ==> final(self).ring.can_pop(),
            final(self).ring.head() == old(self).ring.head(),
    {
        match self.ring.try_push(value) {
            Ok(()) => Ok(()),
            Err(_) => Err(Full),
        }
    }

    /// Pop the oldest entry without holding a claim across calls: claim,
    /// move out, release in one step. The value is exactly the oldest
    /// unconsumed entry of the buffer's history.
    pub fn pop_with(&mut self) -> (r: Option<T>)
        requires
            old(self).wf(),
        ensures
            final(self).wf(),
            r is Some <==> old(self).ring.can_pop(),
            r matches Some(v) ==> Some(v) == old(self).history()[old(self).ring.head()]
                && final(self).ring.head() == old(self).ring.head() + 1,
            r is Some ==> old(self).ring.tail() > old(self).ring.head(),
            r is None ==> final(self).ring.can_push() == old(self).ring.can_push()
                && final(self).ring.can_pop() == old(self).ring.can_pop(),
            forall|i: int| 0 <= i < old(self).ring.rsize() ==> final(self).ring.gen_at(i)
                >= old(self).ring.gen_at(i),
            old(self).ring.quiescent() ==> final(self).ring.quiescent(),
            old(self).ring.quiescent() && r is Some ==> final(self).ring.can_push(),
            final(self).history() == old(self).history(),
            final(self).ring.tail() == old(self).ring.tail(),
    {
        match self.ring.try_pop() {
            Ok(v) => Some(v),
            Err(_) => None,
        }
    }
}

} // verus!

use vstd::prelude::*;
use vstd::arithmetic::div_mod::{
    lemma_mod_add_multiples_vanish, lemma_mod_equivalence, lemma_mod_pos_bound, lemma_small_mod,
};
use vstd::arithmetic::power2::{lemma2_to64, lemma_pow2_adds, pow2};
use crate::errors::{TryRecvError, TrySendError};

verus! {

/// Two distinct numbers congruent modulo `r` lie at least `r` apart.
proof fn lemma_congruent_distinct(a: int, b: int, r: int)
    requires
        r >= 1,
        a % r == b % r,
        a != b,
    ensures
        a <= b - r || a >= b + r,
{
    lemma_mod_equivalence(a, b, r);
    if b - r < a < b + r {
        if a > b {
            lemma_small_mod((a - b) as nat, r as nat);
        } else {
            lemma_mod_add_multiples_vanish(a - b, r);
            lemma_small_mod((a - b + r) as nat, r as nat);
        }
    }
}

/// One cell of the ring: storage for at most one element plus the
/// generation tag that encodes which lap of the ring the slot is on and
/// whether it is writable or readable. The value is `None` exactly when
/// the slot is semantically uninitialized (between a reader's release and
/// the next producer's publish).
pub struct Slot<T> {
    pub value: Option<T>,
    pub generation: u64,
}

/// The coordination state of the ring: monotonically advancing head and
/// tail index words, the logical capacity, the index packing derived from
/// the ring size (a power of two), and the sticky closed flag.
pub struct Core {
    pub head: u64,
    pub tail: u64,
    pub closed: bool,
    pub capacity: u64,
    pub gen_shift: u64,
    pub idx_mask: u64,
}

impl Core {
    /// Number of slots in the ring: the logical capacity rounded up to a
    /// power of two, and at least two so that the generation of a
    /// published slot can never collide with the generation of a writable
    /// one.
    pub open spec fn ring_size(&self) -> int {
        self.idx_mask as int + 1
    }

    pub open spec fn wf(&self) -> bool {
        &&& self.capacity >= 1
        &&& self.ring_size() >= 2
        &&& self.ring_size() <= 0x2000_0000
        &&& self.ring_size() >= self.capacity as int
        &&& self.ring_size() == pow2(self.gen_shift as nat)
        &&& self.head <= self.tail
        &&& self.tail as int <= self.head as int + self.capacity as int
        &&& self.tail as int + self.ring_size() <= u64::MAX as int
    }

    /// Splits an index word into its slot index and its lap count.
    pub fn idx_gen(&self, word: u64) -> (r: (u64, u64))
        requires
            self.wf(),
        ensures
            r.0 as int == word as int % self.ring_size(),
            r.1 as int == word as int / self.ring_size(),
    {
        let rs = self.idx_mask + 1;
        (word % rs, word / rs)
    }

    /// Number of claimed slots: how far the producers' tail has advanced
    /// past the consumer's head.
    pub fn len(&self) -> (n: u64)
        requires
            self.head <= self.tail,
        ensures
            n == self.tail - self.head,
    {
        self.tail - self.head
    }

    /// Marks the channel closed. Closing is sticky: nothing ever clears
    /// the flag again.
    pub fn close(&mut self)
        ensures
            final(self).closed,
            final(self).head == old(self).head,
            final(self).tail == old(self).tail,
            final(self).capacity == old(self).capacity,
            final(self).gen_shift == old(self).gen_shift,
            final(self).idx_mask == old(self).idx_mask,
    {
        self.closed = true;
    }
}

/// A claim on one slot for writing. Produced by a successful producer
/// claim; spent by the publish that makes the written value visible.
pub struct SendRef {
    pub idx: usize,
    pub gen: u64,
}

/// A claim on one slot for reading. Produced by a successful consumer
/// claim; spent by the release that recycles the slot for the next lap.
pub struct RecvRef {
    pub idx: usize,
    pub gen: u64,
}

/// The ring: coordination state plus the slots, together with two ghost
/// components. `pos` maps each slot to the index-word position of its
/// current cycle; `log` records, for every position ever claimed, the
/// value published there (`None` while the claim is still unpublished).
/// The log is the channel's history: entries below `head` have been
/// delivered, entries from `head` up are still pending.
///
/// Index words are 64-bit counters. Claiming asks the caller to keep the
/// tail a ring's length below the top of the word: a machine limit that no
/// real workload reaches, stated rather than wrapped.
pub struct Ring<T> {
    pub core: Core,
    pub slots: Vec<Slot<T>>,
    pub pos: Ghost<Seq<u64>>,
    pub log: Ghost<Seq<Option<T>>>,
}

impl<T> Ring<T> {
    pub open spec fn rsize(&self) -> int {
        self.core.ring_size()
    }

    pub open spec fn head(&self) -> int {
        self.core.head as int
    }

    pub open spec fn tail(&self) -> int {
        self.core.tail as int
    }

    pub open spec fn cap(&self) -> int {
        self.core.capacity as int
    }

    pub open spec fn closed(&self) -> bool {
        self.core.closed
    }

    /// Every position ever claimed, in claim order, with the value
    /// published there (`None` while unpublished).
    pub open spec fn history(&self) -> Seq<Option<T>> {
        self.log@
    }

    pub open spec fn slot_pos(&self, i: int) -> int {
        self.pos@[i] as int
    }

    pub open spec fn gen_at(&self, i: int) -> int {
        self.slots@[i].generation as int
    }

    /// The life of slot `i` on its current cycle position `p`:
    /// writable (generation `p`, not yet claimed), claimed (generation
    /// `p`, position already passed by the tail), published (generation
    /// `p + 1`, not yet passed by the head), or being read (generation
    /// `p + 1`, passed by the head, not yet released).
    pub open spec fn slot_inv(&self, i: int) -> bool {
        let p = self.slot_pos(i);
        let g = self.gen_at(i);
        &&& p % self.rsize() == i
        &&& (g == p || g == p + 1)
        &&& ((g == p && p >= self.tail()) ==> p < self.tail() + self.rsize()
            && p < self.head() + self.rsize())
        &&& ((g == p && p < self.tail()) ==> self.head() <= p && self.history()[p] is None)
        &&& ((g == p + 1 && p >= self.head()) ==> p < self.tail()
            && self.slots@[i].value == self.history()[p] && self.history()[p] is Some)
        &&& ((g == p + 1 && p < self.head()) ==> self.tail() <= p + self.rsize()
            && (self.slots@[i].value == self.history()[p] || self.slots@[i].value is None))
    }

    pub open spec fn wf(&self) -> bool {
        &&& self.core.wf()
        &&& self.slots@.len() == self.rsize()
        &&& self.pos@.len() == self.rsize()
        &&& self.history().len() == self.tail()
        &&& forall|i: int| 0 <= i < self.rsize() ==> #[trigger] self.slot_inv(i)
        &&& forall|p: int| 0 <= p < self.head() ==> (#[trigger] self.history()[p]) is Some
    }

    /// A producer may claim a slot right now: the ring is not logically
    /// full and the slot at the tail has been released up to the current
    /// lap.
    pub open spec fn can_push(&self) -> bool {
        &&& self.tail() - self.head() < self.cap()
        &&& self.gen_at(self.tail() % self.rsize()) == self.tail()
    }

    /// The slot at the head holds a published, undelivered value.
    pub open spec fn can_pop(&self) -> bool {
        self.gen_at(self.head() % self.rsize()) == self.head() + 1
    }

    pub open spec fn valid_send_ref(&self, r: SendRef) -> bool {
        &&& 0 <= r.idx < self.rsize()
        &&& r.gen as int == self.slot_pos(r.idx as int) + 1
        &&& self.gen_at(r.idx as int) == self.slot_pos(r.idx as int)
        &&& self.slot_pos(r.idx as int) < self.tail()
    }

    /// The position a send claim will publish to.
    pub open spec fn send_ref_pos(&self, r: SendRef) -> int {
        r.gen as int - 1
    }

    pub open spec fn valid_recv_ref(&self, r: RecvRef) -> bool {
        &&& 0 <= r.idx < self.rsize()
        &&& r.gen as int == self.slot_pos(r.idx as int) + self.rsize()
        &&& self.gen_at(r.idx as int) == self.slot_pos(r.idx as int) + 1
        &&& self.slot_pos(r.idx as int) < self.head()
    }

    /// The position a recv claim reads from.
    pub open spec fn recv_ref_pos(&self, r: RecvRef) -> int {
        r.gen as int - self.rsize()
    }

    /// Slot `i` carries no outstanding claim: it is writable (awaiting a
    /// claim) or published (awaiting delivery).
    pub open spec fn slot_quiet(&self, i: int) -> bool {
        let p = self.slot_pos(i);
        &&& (self.gen_at(i) == p ==> p >= self.tail())
        &&& (self.gen_at(i) == p + 1 ==> p >= self.head())
    }

    /// No claim is outstanding: every slot is either writable or
    /// published.
    pub open spec fn quiescent(&self) -> bool {
        forall|i: int| 0 <= i < self.rsize() ==> #[trigger] self.slot_quiet(i)
    }

    /// Every slot but `j` is free of outstanding claims: the state between
    /// a claim on slot `j` and its publish or release.
    pub open spec fn quiescent_except(&self, j: int) -> bool {
        forall|i: int| 0 <= i < self.rsize() && i != j ==> #[trigger] self.slot_quiet(i)
    }

    /// In a quiescent ring with pending messages, the slot at the head is
    /// published: the next receive can claim it.
    pub proof fn lemma_quiescent_pop(&self)
        requires
            self.wf(),
            self.quiescent(),
            self.head() < self.tail(),
        ensures
            self.can_pop(),
    {
        let rsz = self.rsize();
        let h = self.head();
        lemma_mod_pos_bound(h, rsz);
        let i = h % rsz;
        assert(self.slot_inv(i));
        assert(self.slot_quiet(i));
        let p = self.slot_pos(i);
        let g = self.gen_at(i);
        if g == p {
            // a writable slot of the head's residue class would sit in
            // [tail, head + ring size), which holds nothing congruent to
            // the head while messages are pending
            assert(p >= self.tail());
            assert(p < self.head() + rsz);
            lemma_congruent_distinct(p, h, rsz);
            assert(false);
        } else {
            // published; of its window [head, tail) only the head itself
            // is congruent to the head
            assert(p >= self.head());
            assert(p < self.tail());
            if p != h {
                lemma_congruent_distinct(p, h, rsz);
                assert(false);
            }
        }
    }

    /// In a quiescent ring below logical capacity, the slot at the tail is
    /// writable: the next send can claim it.
    pub proof fn lemma_quiescent_push(&self)
        requires
            self.wf(),
            self.quiescent(),
            self.tail() - self.head() < self.cap(),
        ensures
            self.can_push(),
    {
        let rsz = self.rsize();
        let t = self.tail();
        lemma_mod_pos_bound(t, rsz);
        let i = t % rsz;
        assert(self.slot_inv(i));
        assert(self.slot_quiet(i));
        let p = self.slot_pos(i);
        let g = self.gen_at(i);
        if g == p + 1 {
            // a published slot congruent to the tail would sit a whole lap
            // behind it, which needs the ring to be at capacity
            assert(p >= self.head());
            assert(p < t);
            lemma_congruent_distinct(p, t, rsz);
            assert(false);
        } else {
            assert(p >= t);
            assert(p < t + rsz);
            if p != t {
                lemma_congruent_distinct(p, t, rsz);
                assert(false);
            }
        }
    }

    pub fn new(capacity: usize) -> (r: Ring<T>)
        requires
            1 <= capacity <= 0x1000_0000,
        ensures
            r.wf(),
            r.cap() == capacity,
            r.head() == 0,
            r.tail() == 0,
            !r.closed(),
            r.history() == Seq::<Option<T>>::empty(),
            r.quiescent(),
    {
        let cap64: u64 = capacity as u64;
        let mut rs: u64 = 2;
        let mut shift: u64 = 1;
        proof {
            lemma2_to64();
        }
        while rs < cap64
            invariant
                2 <= rs <= 0x2000_0000,
                cap64 <= 0x1000_0000,
                1 <= shift,
                2 * shift <= rs,
                rs == pow2(shift as nat),
            decreases 0x2000_0000 - rs as int,
        {
            proof {
                lemma_pow2_adds(shift as nat, 1);
                lemma2_to64();
            }
            rs = rs * 2;
            shift = shift + 1;
        }
        let mut slots: Vec<Slot<T>> = Vec::new();
        let mut i: u64 = 0;
        while i < rs
            invariant
                i <= rs <= 0x2000_0000,
                slots@.len() == i,
                forall|j: int| 0 <= j < i ==> (#[trigger] slots@[j]).generation == j
                    && slots@[j].value is None,
            decreases rs as int - i as int,
        {
            slots.push(Slot { value: None, generation: i });
            i = i + 1;
        }
        let r = Ring {
            core: Core {
                head: 0,
                tail: 0,
                closed: false,
                capacity: cap64,
                gen_shift: shift,
                idx_mask: rs - 1,
            },
            slots,
            pos: Ghost(Seq::new(rs as nat, |j: int| j as u64)),
            log: Ghost(Seq::empty()),
        };
        proof {
            assert forall|j: int| 0 <= j < r.rsize() implies r.slot_inv(j) by {
                lemma_small_mod(j as nat, rs as nat);
            }
        }
        r
    }

    pub fn len(&self) -> (n: u64)
        requires
            self.wf(),
        ensures
            n == self.tail() - self.head(),
    {
        self.core.len()
    }

    pub fn capacity(&self) -> (n: u64)
        ensures
            n == self.cap(),
    {
        self.core.capacity
    }

    pub fn is_closed(&self) -> (b: bool)
        ensures
            b == self.closed(),
    {
        self.core.closed
    }

    /// Marks the ring closed; sticky for the rest of its life.
    pub fn close(&mut self)
        requires
            old(self).wf(),
        ensures
            final(self).wf(),
            final(self).closed(),
            final(self).core.head == old(self).core.head,
            final(self).core.tail == old(self).core.tail,
            final(self).core.capacity == old(self).core.capacity,
            final(self).core.idx_mask == old(self).core.idx_mask,
            final(self).slots@ == old(self).slots@,
            final(self).pos@ == old(self).pos@,
            final(self).history() == old(self).history(),
            old(self).quiescent() ==> final(self).quiescent(),
    {
        self.core.close();
        proof {
            assert forall|j: int| 0 <= j < self.rsize() implies self.slot_inv(j) by {
                assert(old(self).slot_inv(j));
            }
            if old(self).quiescent() {
                assert forall|j: int| 0 <= j < self.rsize() implies self.slot_quiet(j) by {
                    assert(old(self).slot_quiet(j));
                }
            }
        }
    }

    /// Producer claim: reserve the slot at the tail for writing. The
    /// claim succeeds exactly when the ring is open, not logically full,
    /// and the tail slot's generation shows it released up to the current
    /// lap. The index word grows by one on success; a later publish of
    /// the returned claim makes the value visible.
    pub fn push_claim(&mut self) -> (r: Result<SendRef, TrySendError<()>>)
        requires
            old(self).wf(),
            old(self).tail() + old(self).rsize() + 1 <= u64::MAX,
        ensures
            final(self).wf(),
            final(self).cap() == old(self).cap(),
            final(self).rsize() == old(self).rsize(),
            final(self).closed() == old(self).closed(),
            final(self).head() == old(self).head(),
            final(self).slots@ == old(self).slots@,
            final(self).pos@ == old(self).pos@,
            r is Ok <==> (!old(self).closed() && old(self).can_push()),
            r matches Ok(s) ==> {
                &&& final(self).tail() == old(self).tail() + 1
                &&& final(self).history() == old(self).history().push(None)
                &&& final(self).valid_send_ref(s)
                &&& final(self).send_ref_pos(s) == old(self).tail()
            },
            r is Err ==> final(self).tail() == old(self).tail()
                && final(self).history() == old(self).history(),
            r matches Err(e) ==> (e is Closed <==> old(self).closed()),
            r matches Ok(s) ==> (old(self).quiescent() ==> final(self).quiescent_except(
                s.idx as int,
            )),
            r is Err && old(self).quiescent() ==> final(self).quiescent(),
            old(self).closed() ==> final(self).closed(),
    {
        if self.core.closed {
            return Err(TrySendError::Closed(()));
        }
        let t = self.core.tail;
        let rs = self.core.idx_mask + 1;
        let i = (t % rs) as usize;
        if self.slots[i].generation == t && t - self.core.head < self.core.capacity {
            let g = t + 1;
            self.core.tail = g;
            self.log = Ghost(self.log@.push(None));
            proof {
                let rsz = self.rsize();
                assert(i as int == t as int % rsz);
                let p0 = old(self).slot_pos(i as int);
                assert(old(self).slot_inv(i as int));
                if p0 != t as int {
                    lemma_congruent_distinct(p0, t as int, rsz);
                    assert(false);
                }
                assert forall|j: int| 0 <= j < rsz implies self.slot_inv(j) by {
                    let p = self.slot_pos(j);
                    lemma_mod_add_multiples_vanish(p, rsz);
                    assert(old(self).slot_inv(j));
                    if j == i as int {
                        // the claimed slot was writable at exactly the old tail
                        if p != t as int {
                            lemma_congruent_distinct(p, t as int, rsz);
                        }
                    } else {
                        // a slot of another residue class never sits at the
                        // old tail position, on this lap or the previous one,
                        // so its cases survive the tail bump
                        assert(p != t as int);
                        assert(p + rsz != t as int);
                    }
                }
                if old(self).quiescent() {
                    assert forall|j: int| 0 <= j < rsz && j != i as int implies self.slot_quiet(
                        j,
                    ) by {
                        assert(old(self).slot_quiet(j));
                        assert(old(self).slot_inv(j));
                        assert(self.slot_pos(j) != t as int);
                    }
                }
            }
            Ok(SendRef { idx: i, gen: g })
        } else {
            Err(TrySendError::Full(()))
        }
    }

    /// Publish a claimed slot: store the value and bump the generation so
    /// the consumer can see it. The history entry for the claim's
    /// position changes from unpublished to this value.
    pub fn publish(&mut self, r: SendRef, value: T)
        requires
            old(self).wf(),
            old(self).valid_send_ref(r),
        ensures
            final(self).wf(),
            final(self).core == old(self).core,
            final(self).pos@ == old(self).pos@,
            final(self).history() == old(self).history().update(
                old(self).send_ref_pos(r),
                Some(value),
            ),
            forall|i: int| 0 <= i < old(self).rsize() && i != r.idx ==> final(self).slots@[i]
                == old(self).slots@[i],
            forall|i: int| 0 <= i < old(self).rsize() ==> final(self).gen_at(i)
                >= old(self).gen_at(i),
            old(self).quiescent_except(r.idx as int) ==> final(self).quiescent()
                && final(self).can_pop(),
            old(self).closed() ==> final(self).closed(),
    {
        let ghost p = r.gen as int - 1;
        let i = r.idx;
        self.log = Ghost(self.log@.update(p, Some(value)));
        self.slots[i] = Slot { value: Some(value), generation: r.gen };
        proof {
            let rsz = self.rsize();
            assert forall|j: int| 0 <= j < rsz implies self.slot_inv(j) by {
                assert(old(self).slot_inv(j));
                assert(old(self).slot_inv(r.idx as int));
                if j != r.idx {
                    let pj = self.slot_pos(j);
                    lemma_mod_equivalence(pj, p, rsz);
                }
            }
            if old(self).quiescent_except(r.idx as int) {
                assert forall|j: int| 0 <= j < rsz implies self.slot_quiet(j) by {
                    if j != r.idx {
                        assert(old(self).slot_quiet(j));
                    } else {
                        assert(old(self).slot_inv(j));
                    }
                }
                // the claim's position is pending, so the ring is nonempty
                assert(old(self).slot_inv(r.idx as int));
                assert(self.head() <= p < self.tail());
                self.lemma_quiescent_pop();
            }
        }
    }

    /// Consumer claim: if the slot at the head has been published, claim
    /// it for reading and advance the head. When the ring is drained and
    /// the channel closed, the claim reports end of stream.
    pub fn pop_claim(&mut self) -> (r: Result<RecvRef, TryRecvError>)
        requires
            old(self).wf(),
        ensures
            final(self).wf(),
            final(self).cap() == old(self).cap(),
            final(self).rsize() == old(self).rsize(),
            final(self).closed() == old(self).closed(),
            final(self).tail() == old(self).tail(),
            final(self).slots@ == old(self).slots@,
            final(self).pos@ == old(self).pos@,
            final(self).history() == old(self).history(),
            r is Ok <==> old(self).can_pop(),
            r matches Ok(rr) ==> {
                &&& final(self).head() == old(self).head() + 1
                &&& final(self).valid_recv_ref(rr)
                &&& final(self).recv_ref_pos(rr) == old(self).head()
                &&& final(self).history()[old(self).head()] is Some
                &&& final(self).slots@[rr.idx as int].value
                    == final(self).history()[old(self).head()]
            },
            r is Err ==> final(self).head() == old(self).head(),
            r matches Err(e) ==> (e is Closed <==> (old(self).closed() && old(self).tail()
                == old(self).head())),
            r is Ok ==> old(self).tail() > old(self).head(),
            old(self).closed() && old(self).tail() == old(self).head() ==> (r matches Err(
                TryRecvError::Closed,
            )),
            r matches Ok(rr) ==> (old(self).quiescent() ==> final(self).quiescent_except(
                rr.idx as int,
            )),
            r is Err && old(self).quiescent() ==> final(self).quiescent(),
            old(self).closed() ==> final(self).closed(),
    {
        let h = self.core.head;
        let rs = self.core.idx_mask + 1;
        let i = (h % rs) as usize;
        if self.slots[i].generation == h + 1 {
            self.core.head = h + 1;
            proof {
                let rsz = self.rsize();
                let p = self.slot_pos(i as int);
                assert(old(self).slot_inv(i as int));
                if p == h + 1 {
                    lemma_mod_equivalence(p, h as int, rsz);
                    lemma_small_mod(1nat, rsz as nat);
                    assert(false);
                }
                assert forall|j: int| 0 <= j < rsz implies self.slot_inv(j) by {
                    assert(old(self).slot_inv(j));
                    if j != i {
                        let pj = self.slot_pos(j);
                        lemma_mod_equivalence(pj, h as int, rsz);
                    }
                }
                if old(self).quiescent() {
                    assert forall|j: int| 0 <= j < rsz && j != i as int implies self.slot_quiet(
                        j,
                    ) by {
                        assert(old(self).slot_quiet(j));
                        assert(old(self).slot_inv(j));
                        assert(self.slot_pos(j) != h as int);
                    }
                }
            }
            Ok(RecvRef { idx: i, gen: h + rs })
        } else if self.core.closed && self.core.tail == h {
            Err(TryRecvError::Closed)
        } else {
            Err(TryRecvError::Empty)
        }
    }

    /// Move the published value out of a claimed read slot, leaving the
    /// slot semantically uninitialized until its release. The value is
    /// exactly the history entry for the claim's position.
    pub fn take(&mut self, r: &RecvRef) -> (v: T)
        requires
            old(self).wf(),
            old(self).valid_recv_ref(*r),
            old(self).slots@[r.idx as int].value is Some,
        ensures
            final(self).wf(),
            final(self).valid_recv_ref(*r),
            final(self).core == old(self).core,
            final(self).pos@ == old(self).pos@,
            final(self).history() == old(self).history(),
            Some(v) == old(self).history()[old(self).recv_ref_pos(*r)],
            forall|i: int| 0 <= i < old(self).rsize() && i != r.idx ==> final(self).slots@[i]
                == old(self).slots@[i],
            final(self).gen_at(r.idx as int) == old(self).gen_at(r.idx as int),
            final(self).slots@[r.idx as int].value is None,
            old(self).quiescent_except(r.idx as int) ==> final(self).quiescent_except(
                r.idx as int,
            ),
    {
        let i = r.idx;
        proof {
            assert(old(self).slot_inv(i as int));
        }
        let mut v_opt: Option<T> = None;
        core::mem::swap(&mut self.slots[i].value, &mut v_opt);
        proof {
            assert forall|j: int| 0 <= j < self.rsize() implies self.slot_inv(j) by {
                assert(old(self).slot_inv(j));
            }
            if old(self).quiescent_except(i as int) {
                assert forall|j: int| 0 <= j < self.rsize() && j != i as int implies self
                    .slot_quiet(j) by {
                    assert(old(self).slot_quiet(j));
                }
            }
        }
        match v_opt {
            Some(v) => v,
            None => vstd::pervasive::unreached(),
        }
    }

    /// Release a read slot back for reuse: bump its generation to the
    /// writable value of the next lap and advance its cycle position.
    /// Whatever value is still in the slot stays there for reuse by the
    /// next producer claim.
    pub fn release(&mut self, r: RecvRef)
        requires
            old(self).wf(),
            old(self).valid_recv_ref(r),
        ensures
            final(self).wf(),
            final(self).core == old(self).core,
            final(self).history() == old(self).history(),
            final(self).pos@ == old(self).pos@.update(r.idx as int, r.gen),
            forall|i: int| 0 <= i < old(self).rsize() && i != r.idx ==> final(self).slots@[i]
                == old(self).slots@[i],
            forall|i: int| 0 <= i < old(self).rsize() ==> final(self).gen_at(i)
                >= old(self).gen_at(i),
            final(self).slots@[r.idx as int].value == old(self).slots@[r.idx as int].value,
            old(self).quiescent_except(r.idx as int) ==> final(self).quiescent(),
            old(self).closed() ==> final(self).closed(),
    {
        let i = r.idx;
        proof {
            assert(old(self).slot_inv(i as int));
        }
        self.slots[i].generation = r.gen;
        self.pos = Ghost(self.pos@.update(i as int, r.gen));
        proof {
            let rsz = self.rsize();
            let ghost p = old(self).slot_pos(i as int);
            lemma_mod_add_multiples_vanish(p, rsz);
            assert forall|j: int| 0 <= j < rsz implies self.slot_inv(j) by {
                assert(old(self).slot_inv(j));
            }
            if old(self).quiescent_except(i as int) {
                assert forall|j: int| 0 <= j < rsz implies self.slot_quiet(j) by {
                    if j != i as int {
                        assert(old(self).slot_quiet(j));
                    }
                }
            }
        }
    }

    /// Non-blocking send: claim, write, publish in one step. Succeeds
    /// exactly when the ring is open and a slot is writable; on failure
    /// the value is handed back so the caller may reuse it.
    pub fn try_push(&mut self, value: T) -> (r: Result<(), TrySendError<T>>)
        requires
            old(self).wf(),
            old(self).tail() + old(self).rsize() + 1 <= u64::MAX,
        ensures
            final(self).wf(),
            final(self).cap() == old(self).cap(),
            final(self).rsize() == old(self).rsize(),
            final(self).closed() == old(self).closed(),
            final(self).head() == old(self).head(),
            r is Ok <==> (!old(self).closed() && old(self).can_push()),
            r is Ok ==> final(self).tail() == old(self).tail() + 1
                && final(self).history() == old(self).history().push(Some(value)),
            r is Err ==> final(self).tail() == old(self).tail()
                && final(self).history() == old(self).history()
                && final(self).slots@ == old(self).slots@,
            r matches Err(TrySendError::Full(v)) ==> v == value && !old(self).closed(),
            r matches Err(TrySendError::Closed(v)) ==> v == value && old(self).closed(),
            forall|i: int| 0 <= i < old(self).rsize() ==> final(self).gen_at(i)
                >= old(self).gen_at(i),
            old(self).quiescent() ==> final(self).quiescent(),
            old(self).quiescent() && r is Ok ==> final(self).can_pop(),
            old(self).closed() ==> final(self).closed(),
    {
        match self.push_claim() {
            Ok(s) => {
                self.publish(s, value);
                proof {
                    assert(self.history() =~= old(self).history().push(Some(value)));
                    if old(self).quiescent() {
                        self.lemma_quiescent_pop();
                    }
                }
                Ok(())
            },
            Err(TrySendError::Full(_)) => Err(TrySendError::Full(value)),
            Err(TrySendError::Closed(_)) => Err(TrySendError::Closed(value)),
        }
    }

    /// Non-blocking receive: claim, move the value out, release, in one
    /// step. Succeeds exactly when the head slot is published; reports
    /// end of stream when the channel is closed and drained. When no
    /// claim is outstanding, a successful receive out of a full ring
    /// re-opens it for the producers: the next push can succeed.
    pub fn try_pop(&mut self) -> (r: Result<T, TryRecvError>)
        requires
            old(self).wf(),
        ensures
            final(self).wf(),
            final(self).cap() == old(self).cap(),
            final(self).rsize() == old(self).rsize(),
            final(self).closed() == old(self).closed(),
            final(self).tail() == old(self).tail(),
            final(self).history() == old(self).history(),
            r is Ok <==> old(self).can_pop(),
            r matches Ok(v) ==> Some(v) == old(self).history()[old(self).head()]
                && final(self).head() == old(self).head() + 1,
            r is Err ==> final(self).head() == old(self).head()
                && final(self).slots@ == old(self).slots@,
            r matches Err(e) ==> (e is Closed <==> (old(self).closed() && old(self).tail()
                == old(self).head())),
            r is Ok ==> old(self).tail() > old(self).head(),
            old(self).closed() && old(self).tail() == old(self).head() ==> (r matches Err(
                TryRecvError::Closed,
            )),
            forall|i: int| 0 <= i < old(self).rsize() ==> final(self).gen_at(i)
                >= old(self).gen_at(i),
            old(self).quiescent() ==> final(self).quiescent(),
            old(self).quiescent() && r is Ok && !old(self).closed() ==> final(self).can_push(),
            old(self).closed() ==> final(self).closed(),
    {
        match self.pop_claim() {
            Ok(rr) => {
                let v = self.take(&rr);
                let ghost before_release = *self;
                proof {
                    assert(before_release.slot_inv(rr.idx as int));
                }
                self.release(rr);
                proof {
                    if old(self).quiescent() {
                        assert(self.quiescent());
                        if !old(self).closed() {
                            self.lemma_quiescent_push();
                        }
                    }
                }
                Ok(v)
            },
            Err(e) => Err(e),
        }
    }

    /// The capacity bound: the producers' tail never runs more than the
    /// logical capacity ahead of the consumer's head.
    pub proof fn lemma_capacity_bound(&self)
        requires
            self.wf(),
        ensures
            self.tail() - self.head() <= self.cap(),
            self.head() <= self.tail(),
    {
    }

    /// Deliveries happen in position order: if a later claim has been
    /// delivered, every earlier claim has been delivered before it. With
    /// claims made in send order, a value is received only after
    /// everything claimed before it — per-producer order is preserved.
    pub proof fn lemma_delivery_order(&self, p1: int, p2: int)
        requires
            self.wf(),
            0 <= p1 < p2 < self.history().len(),
            p2 < self.head(),
        ensures
            p1 < self.head(),
            self.history()[p1] is Some,
            self.history()[p2] is Some,
    {
    }

    /// The consumer never runs ahead of the producers: the number of
    /// deliveries is at most the number of claims, and once the channel
    /// reports end of stream the two are equal.
    pub proof fn lemma_no_loss(&self)
        requires
            self.wf(),
        ensures
            self.head() <= self.history().len(),
            self.closed() && self.tail() == self.head() ==> self.head()
                == self.history().len(),
    {
    }
}

} // verus!

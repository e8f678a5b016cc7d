use vstd::prelude::*;

verus! {

/// One parked task or thread: an identifier chosen by the queue and the
/// token that wakes it (an async waker, a thread handle, anything that can
/// notify).
pub struct Waiter<W> {
    pub id: u64,
    pub token: W,
}

/// A queue of parked producers or consumers. Waiters are woken in arrival
/// order; closing the queue drains every waiter so each one can be woken.
/// The queue never wakes anybody itself: every operation that unparks a
/// waiter hands its token back to the caller, so wakes happen after the
/// queue is left.
pub struct WaitQueue<W> {
    pub closed: bool,
    pub next_id: u64,
    pub list: Vec<Waiter<W>>,
}

impl<W> WaitQueue<W> {
    pub open spec fn ids(&self) -> Seq<u64> {
        self.list@.map_values(|w: Waiter<W>| w.id)
    }

    pub open spec fn tokens(&self) -> Seq<W> {
        self.list@.map_values(|w: Waiter<W>| w.token)
    }

    pub open spec fn contains_id(&self, id: u64) -> bool {
        self.ids().contains(id)
    }

    pub open spec fn wf(&self) -> bool {
        &&& forall|j: int| 0 <= j < self.list@.len() ==> (#[trigger] self.list@[j]).id
            < self.next_id
        &&& forall|j1: int, j2: int| 0 <= j1 < j2 < self.list@.len() ==> (#[trigger] self.list@[
            j1]).id != (#[trigger] self.list@[j2]).id
    }

    pub fn new() -> (q: WaitQueue<W>)
        ensures
            q.wf(),
            !q.closed,
            q.list@.len() == 0,
            q.next_id == 0,
    {
        WaitQueue { closed: false, next_id: 0, list: Vec::new() }
    }

    pub fn len(&self) -> (n: usize)
        ensures
            n == self.list@.len(),
    {
        self.list.len()
    }

    pub fn is_closed(&self) -> (b: bool)
        ensures
            b == self.closed,
    {
        self.closed
    }

    /// Identifier of the waiter that has waited longest, if any.
    pub fn front_id(&self) -> (r: Option<u64>)
        requires
            self.wf(),
        ensures
            r is Some <==> self.list@.len() > 0,
            r matches Some(id) ==> id == self.list@[0].id,
    {
        if self.list.len() > 0 {
            Some(self.list[0].id)
        } else {
            None
        }
    }

    pub fn contains(&self, id: u64) -> (b: bool)
        requires
            self.wf(),
        ensures
            b == self.contains_id(id),
    {
        let mut j: usize = 0;
        while j < self.list.len()
            invariant
                0 <= j <= self.list@.len(),
                forall|k: int| 0 <= k < j ==> (#[trigger] self.list@[k]).id != id,
            decreases self.list@.len() - j,
        {
            if self.list[j].id == id {
                proof {
                    assert(self.ids()[j as int] == id);
                }
                return true;
            }
            j = j + 1;
        }
        proof {
            if self.contains_id(id) {
                let k = choose|k: int| 0 <= k < self.ids().len() && self.ids()[k] == id;
                assert(self.list@[k].id == id);
            }
        }
        false
    }

    /// Park a caller whose condition re-check failed: append it to the
    /// queue and hand back its identifier. If the queue is closed no
    /// parking happens and the token comes back.
    pub fn start_wait(&mut self, token: W) -> (r: Result<u64, W>)
        requires
            old(self).wf(),
            old(self).next_id < u64::MAX,
        ensures
            final(self).wf(),
            final(self).closed == old(self).closed,
            r matches Err(t) ==> old(self).closed && t == token && final(self).list@
                == old(self).list@ && final(self).next_id == old(self).next_id,
            r matches Ok(id) ==> {
                &&& !old(self).closed
                &&& id == old(self).next_id
                &&& final(self).next_id == old(self).next_id + 1
                &&& !old(self).contains_id(id)
                &&& final(self).list@ == old(self).list@.push(Waiter { id, token })
                &&& final(self).contains_id(id)
            },
    {
        if self.closed {
            return Err(token);
        }
        let id = self.next_id;
        self.next_id = id + 1;
        self.list.push(Waiter { id, token });
        proof {
            assert(self.ids() =~= old(self).ids().push(id));
            assert(self.ids()[old(self).list@.len() as int] == id);
            if old(self).contains_id(id) {
                let k = choose|k: int|
                    0 <= k < old(self).ids().len() && old(self).ids()[k] == id;
                assert(old(self).list@[k].id == id);
            }
        }
        Ok(id)
    }

    /// Replace a parked waiter's token with one that will wake the
    /// caller's current context. Returns the token that is no longer
    /// needed: the displaced one, or the new one when the waiter is not
    /// parked any more (it has already been handed to a notifier).
    pub fn continue_wait(&mut self, id: u64, token: W) -> (r: W)
        requires
            old(self).wf(),
        ensures
            final(self).wf(),
            final(self).closed == old(self).closed,
            final(self).next_id == old(self).next_id,
            final(self).ids() == old(self).ids(),
            !old(self).contains_id(id) ==> final(self).list@ == old(self).list@ && r == token,
            forall|k: int| 0 <= k < old(self).list@.len() && (#[trigger] old(self).list@[k]).id
                != id ==> final(self).list@[k] == old(self).list@[k],
            forall|k: int| 0 <= k < old(self).list@.len() && (#[trigger] old(self).list@[k]).id
                == id ==> final(self).list@[k] == (Waiter { id, token })
                && r == old(self).list@[k].token,
    {
        let mut j: usize = 0;
        while j < self.list.len()
            invariant
                0 <= j <= self.list@.len(),
                forall|k: int| 0 <= k < j ==> (#[trigger] self.list@[k]).id != id,
                self.wf(),
                *self == *old(self),
            decreases self.list@.len() - j,
        {
            if self.list[j].id == id {
                proof {
                    assert(old(self).ids()[j as int] == id);
                }
                let mut w = Waiter { id, token };
                core::mem::swap(&mut self.list[j], &mut w);
                proof {
                    assert(self.ids() =~= old(self).ids());
                }
                return w.token;
            }
            j = j + 1;
        }
        proof {
            if self.contains_id(id) {
                let k = choose|k: int| 0 <= k < self.ids().len() && self.ids()[k] == id;
                assert(self.list@[k].id == id);
            }
        }
        token
    }

    /// Unpark the waiter that has waited longest and hand its token to
    /// the caller, who performs the wake.
    pub fn notify_one(&mut self) -> (r: Option<Waiter<W>>)
        requires
            old(self).wf(),
        ensures
            final(self).wf(),
            final(self).closed == old(self).closed,
            final(self).next_id == old(self).next_id,
            r is Some <==> old(self).list@.len() > 0,
            r matches Some(w) ==> w == old(self).list@[0] && final(self).list@
                == old(self).list@.subrange(1, old(self).list@.len() as int),
            r is None ==> final(self).list@ == old(self).list@,
    {
        if self.list.len() > 0 {
            let w = self.list.remove(0);
            Some(w)
        } else {
            None
        }
    }

    /// Remove a cancelled waiter, wherever it is in the queue. Idempotent:
    /// removing an identifier that is not parked changes nothing.
    pub fn remove(&mut self, id: u64) -> (r: Option<W>)
        requires
            old(self).wf(),
        ensures
            final(self).wf(),
            final(self).closed == old(self).closed,
            final(self).next_id == old(self).next_id,
            !final(self).contains_id(id),
            r is Some <==> old(self).contains_id(id),
            r is None ==> final(self).list@ == old(self).list@,
            old(self).contains_id(id) ==> final(self).list@.len() == old(self).list@.len() - 1,
            !old(self).contains_id(id) ==> final(self).list@ == old(self).list@,
    {
        let mut j: usize = 0;
        while j < self.list.len()
            invariant
                0 <= j <= self.list@.len(),
                forall|k: int| 0 <= k < j ==> (#[trigger] self.list@[k]).id != id,
                self.wf(),
                *self == *old(self),
            decreases self.list@.len() - j,
        {
            if self.list[j].id == id {
                proof {
                    assert(self.ids()[j as int] == id);
                }
                let w = self.list.remove(j);
                proof {
                    assert forall|k: int|
                        0 <= k < self.list@.len() implies (#[trigger] self.list@[k]).id != id by {
                        if k < j {
                            assert(self.list@[k] == old(self).list@[k]);
                        } else {
                            assert(self.list@[k] == old(self).list@[k + 1]);
                        }
                    }
                    if self.contains_id(id) {
                        let k = choose|k: int|
                            0 <= k < self.ids().len() && self.ids()[k] == id;
                        assert(self.list@[k].id == id);
                    }
                }
                return Some(w.token);
            }
            j = j + 1;
        }
        proof {
            if self.contains_id(id) {
                let k = choose|k: int| 0 <= k < self.ids().len() && self.ids()[k] == id;
                assert(self.list@[k].id == id);
            }
        }
        None
    }

    /// Close the queue and drain it: every parked waiter's token is handed
    /// back, in arrival order, so the caller can wake them all. Closing is
    /// sticky and the queue is empty afterwards.
    pub fn close(&mut self) -> (r: Vec<Waiter<W>>)
        requires
            old(self).wf(),
        ensures
            final(self).wf(),
            final(self).closed,
            final(self).next_id == old(self).next_id,
            final(self).list@.len() == 0,
            r@ == old(self).list@,
    {
        self.closed = true;
        let mut drained: Vec<Waiter<W>> = Vec::new();
        core::mem::swap(&mut self.list, &mut drained);
        drained
    }
}

} // verus!

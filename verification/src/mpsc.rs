use vstd::prelude::*;
use crate::errors::{TryRecvError, TrySendError};
use crate::ring::{RecvRef, Ring, SendRef};
use crate::wait::WaitQueue;

verus! {

/// The shared state of one channel: the ring, the two waiter queues, the
/// producer reference count, and an outbox of wake tokens. Operations
/// never wake anybody themselves; they move the tokens of the waiters to
/// unpark into the outbox, and the caller drains it and performs the
/// wakes after the state is released.
pub struct Channel<T, W> {
    pub ring: Ring<T>,
    pub tx_wait: WaitQueue<W>,
    pub rx_wait: WaitQueue<W>,
    pub tx_count: u64,
    pub wakes: Vec<W>,
}

/// A producer handle. All state lives in the `Channel`; the handle is the
/// witness that one unit of the producer count is held.
pub struct Sender {
    pub token: (),
}

/// The consumer handle; at most one exists per channel.
pub struct Receiver {
    pub token: (),
}

/// The state of one suspendable send: whether the caller is parked on the
/// producer waiter queue, and under which identifier.
pub struct SendRefFuture {
    pub queued: bool,
    pub waiter: u64,
}

/// A suspendable receive of a slot claim.
pub struct RecvRefFuture {
    pub token: (),
}

/// A suspendable receive that moves the value out.
pub struct RecvFuture {
    pub token: (),
}

/// Outcome of polling a suspendable send.
pub enum SendPoll<W> {
    /// A slot was claimed; the unused wake token comes back.
    Ready(SendRef, W),
    /// The caller is parked on the producer waiter queue.
    Pending,
    /// The receiving end is gone; the unused wake token comes back.
    Closed(W),
}

/// Outcome of polling a suspendable receive.
pub enum RecvPoll<R, W> {
    /// A message was available; the unused wake token comes back.
    Ready(R, W),
    /// Nothing to read yet; the consumer's wake token is parked.
    Pending,
    /// The channel is closed and drained: end of stream.
    End(W),
}

impl<T, W> Channel<T, W> {
    pub open spec fn wf(&self) -> bool {
        &&& self.ring.wf()
        &&& self.tx_wait.wf()
        &&& self.rx_wait.wf()
        &&& (self.tx_wait.closed ==> self.ring.closed())
        &&& (self.rx_wait.closed ==> self.rx_wait.list@.len() == 0)
    }

    /// Delivered and pending messages, in claim order.
    pub open spec fn history(&self) -> Seq<Option<T>> {
        self.ring.history()
    }

    /// Number of messages delivered so far.
    pub open spec fn delivered(&self) -> int {
        self.ring.head()
    }

    pub fn len(&self) -> (n: u64)
        requires
            self.wf(),
        ensures
            n == self.ring.tail() - self.ring.head(),
    {
        self.ring.len()
    }

    pub fn capacity(&self) -> (n: u64)
        ensures
            n == self.ring.cap(),
    {
        self.ring.capacity()
    }

    /// Drain the outbox: the tokens of every waiter unparked since the
    /// last drain, for the caller to wake.
    pub fn take_wakes(&mut self) -> (r: Vec<W>)
        requires
            old(self).wf(),
        ensures
            final(self).wf(),
            final(self).wakes@.len() == 0,
            r@ == old(self).wakes@,
            final(self).ring == old(self).ring,
            final(self).tx_wait == old(self).tx_wait,
            final(self).rx_wait == old(self).rx_wait,
            final(self).tx_count == old(self).tx_count,
    {
        let mut drained: Vec<W> = Vec::new();
        core::mem::swap(&mut self.wakes, &mut drained);
        drained
    }

    /// Register one more producer holding the channel.
    pub fn clone_sender(&mut self, _tx: &Sender) -> (t: Sender)
        requires
            old(self).wf(),
            old(self).tx_count < u64::MAX,
        ensures
            final(self).wf(),
            final(self).tx_count == old(self).tx_count + 1,
            final(self).ring == old(self).ring,
            final(self).tx_wait == old(self).tx_wait,
            final(self).rx_wait == old(self).rx_wait,
            final(self).wakes == old(self).wakes,
    {
        self.tx_count = self.tx_count + 1;
        Sender { token: () }
    }

    /// Give up one producer handle. When the last one goes, the channel
    /// closes from the producer side: pending messages stay drainable, and
    /// every parked consumer is unparked so it can observe the close.
    pub fn drop_sender(&mut self, tx: Sender)
        requires
            old(self).wf(),
            old(self).tx_count >= 1,
        ensures
            final(self).wf(),
            final(self).tx_count == old(self).tx_count - 1,
            final(self).history() == old(self).history(),
            final(self).delivered() == old(self).delivered(),
            final(self).ring.tail() == old(self).ring.tail(),
            old(self).tx_count > 1 ==> final(self).ring == old(self).ring
                && final(self).rx_wait == old(self).rx_wait && final(self).wakes
                == old(self).wakes,
            old(self).tx_count == 1 ==> {
                &&& final(self).ring.closed()
                &&& final(self).rx_wait.closed
                &&& final(self).rx_wait.list@.len() == 0
                &&& final(self).wakes@ == old(self).wakes@ + old(self).rx_wait.tokens()
            },
            old(self).ring.closed() ==> final(self).ring.closed(),
            final(self).ring.cap() == old(self).ring.cap(),
            final(self).ring.rsize() == old(self).ring.rsize(),
            final(self).rx_wait.next_id == old(self).rx_wait.next_id,
            final(self).ring.can_pop() == old(self).ring.can_pop(),
            final(self).ring.can_push() == old(self).ring.can_push(),
            old(self).ring.quiescent() ==> final(self).ring.quiescent(),
            final(self).tx_wait == old(self).tx_wait,
    {
        let _ = tx;
        self.tx_count = self.tx_count - 1;
        if self.tx_count == 0 {
            self.ring.close();
            let drained = self.rx_wait.close();
            self.push_tokens(drained);
        }
    }

    /// Close from the consumer side: the receiver is gone, so every
    /// parked producer is unparked to observe the close, and later claims
    /// fail with Closed.
    pub fn close_rx(&mut self, rx: Receiver)
        requires
            old(self).wf(),
        ensures
            final(self).wf(),
            final(self).ring.closed(),
            final(self).tx_wait.closed,
            final(self).tx_wait.list@.len() == 0,
            final(self).wakes@ == old(self).wakes@ + old(self).tx_wait.tokens(),
            final(self).history() == old(self).history(),
            final(self).delivered() == old(self).delivered(),
            final(self).ring.cap() == old(self).ring.cap(),
            final(self).ring.rsize() == old(self).ring.rsize(),
            final(self).tx_wait.next_id == old(self).tx_wait.next_id,
            final(self).ring.tail() == old(self).ring.tail(),
            final(self).ring.can_pop() == old(self).ring.can_pop(),
            final(self).ring.can_push() == old(self).ring.can_push(),
            old(self).ring.quiescent() ==> final(self).ring.quiescent(),
            final(self).rx_wait == old(self).rx_wait,
            final(self).tx_count == old(self).tx_count,
    {
        let _ = rx;
        self.ring.close();
        let drained = self.tx_wait.close();
        self.push_tokens(drained);
    }

    /// Publish a claimed send slot and unpark the longest-waiting
    /// consumer, if any, so it can read it.
    pub fn publish(&mut self, r: SendRef, value: T)
        requires
            old(self).wf(),
            old(self).ring.valid_send_ref(r),
        ensures
            final(self).wf(),
            final(self).history() == old(self).history().update(
                old(self).ring.send_ref_pos(r),
                Some(value),
            ),
            final(self).delivered() == old(self).delivered(),
            final(self).ring.tail() == old(self).ring.tail(),
            final(self).ring.closed() == old(self).ring.closed(),
            final(self).tx_wait == old(self).tx_wait,
            final(self).tx_count == old(self).tx_count,
            final(self).ring.cap() == old(self).ring.cap(),
            final(self).ring.rsize() == old(self).ring.rsize(),
            final(self).rx_wait.closed == old(self).rx_wait.closed,
            final(self).rx_wait.next_id == old(self).rx_wait.next_id,
            old(self).ring.quiescent_except(r.idx as int) ==> final(self).ring.quiescent()
                && final(self).ring.can_pop(),
            old(self).rx_wait.list@.len() > 0 ==> final(self).wakes@
                == old(self).wakes@.push(old(self).rx_wait.tokens()[0])
                && final(self).rx_wait.list@ == old(self).rx_wait.list@.subrange(
                1,
                old(self).rx_wait.list@.len() as int,
            ),
            old(self).rx_wait.list@.len() == 0 ==> final(self).wakes@ == old(self).wakes@
                && final(self).rx_wait.list@ == old(self).rx_wait.list@,
    {
        self.ring.publish(r, value);
        match self.rx_wait.notify_one() {
            Some(w) => {
                self.wakes.push(w.token);
            },
            None => {},
        }
    }

    /// Move the published value out of a claimed read slot.
    pub fn take(&mut self, r: &RecvRef) -> (v: T)
        requires
            old(self).wf(),
            old(self).ring.valid_recv_ref(*r),
            old(self).ring.slots@[r.idx as int].value is Some,
        ensures
            final(self).wf(),
            final(self).ring.valid_recv_ref(*r),
            Some(v) == old(self).history()[old(self).ring.recv_ref_pos(*r)],
            final(self).history() == old(self).history(),
            final(self).delivered() == old(self).delivered(),
            final(self).ring.cap() == old(self).ring.cap(),
            final(self).ring.rsize() == old(self).ring.rsize(),
            final(self).ring.tail() == old(self).ring.tail(),
            final(self).ring.closed() == old(self).ring.closed(),
            old(self).ring.quiescent_except(r.idx as int) ==> final(self).ring.quiescent_except(
                r.idx as int,
            ),
            final(self).tx_wait == old(self).tx_wait,
            final(self).rx_wait == old(self).rx_wait,
            final(self).wakes == old(self).wakes,
    {
        self.ring.take(r)
    }

    /// Release a read slot for reuse and unpark the longest-waiting
    /// producer, if any: the freed slot is what it was waiting for.
    pub fn release(&mut self, r: RecvRef)
        requires
            old(self).wf(),
            old(self).ring.valid_recv_ref(r),
        ensures
            final(self).wf(),
            final(self).history() == old(self).history(),
            final(self).delivered() == old(self).delivered(),
            final(self).ring.closed() == old(self).ring.closed(),
            final(self).rx_wait == old(self).rx_wait,
            final(self).tx_count == old(self).tx_count,
            final(self).ring.cap() == old(self).ring.cap(),
            final(self).ring.rsize() == old(self).ring.rsize(),
            final(self).ring.tail() == old(self).ring.tail(),
            final(self).tx_wait.closed == old(self).tx_wait.closed,
            final(self).tx_wait.next_id == old(self).tx_wait.next_id,
            old(self).ring.quiescent_except(r.idx as int) ==> final(self).ring.quiescent(),
            old(self).tx_wait.list@.len() > 0 ==> final(self).wakes@
                == old(self).wakes@.push(old(self).tx_wait.tokens()[0])
                && final(self).tx_wait.list@ == old(self).tx_wait.list@.subrange(
                1,
                old(self).tx_wait.list@.len() as int,
            ),
            old(self).tx_wait.list@.len() == 0 ==> final(self).wakes@ == old(self).wakes@
                && final(self).tx_wait.list@ == old(self).tx_wait.list@,
    {
        self.ring.release(r);
        match self.tx_wait.notify_one() {
            Some(w) => {
                self.wakes.push(w.token);
            },
            None => {},
        }
    }

    fn push_tokens(&mut self, drained: Vec<crate::wait::Waiter<W>>)
        requires
            old(self).wf(),
        ensures
            final(self).wf(),
            final(self).wakes@ == old(self).wakes@ + drained@.map_values(
                |w: crate::wait::Waiter<W>| w.token,
            ),
            final(self).ring == old(self).ring,
            final(self).tx_wait == old(self).tx_wait,
            final(self).rx_wait == old(self).rx_wait,
            final(self).tx_count == old(self).tx_count,
    {
        let ghost all = drained@;
        let ghost n0 = self.wakes@.len() as int;
        let mut rest = drained;
        while rest.len() > 0
            invariant
                self.wf(),
                n0 == old(self).wakes@.len(),
                self.wakes@.len() == n0 + all.len() - rest@.len(),
                rest@.len() <= all.len(),
                forall|k: int| 0 <= k < n0 ==> self.wakes@[k] == old(self).wakes@[k],
                forall|k: int| 0 <= k < all.len() - rest@.len() ==> self.wakes@[n0 + k]
                    == all[k].token,
                forall|k: int| 0 <= k < rest@.len() ==> rest@[k] == all[all.len() - rest@.len()
                    + k],
                self.ring == old(self).ring,
                self.tx_wait == old(self).tx_wait,
                self.rx_wait == old(self).rx_wait,
                self.tx_count == old(self).tx_count,
            decreases rest@.len(),
        {
            let w = rest.remove(0);
            self.wakes.push(w.token);
        }
        proof {
            assert(self.wakes@ =~= old(self).wakes@ + all.map_values(
                |w: crate::wait::Waiter<W>| w.token,
            ));
        }
    }
}

/// Returns a new bounded multi-producer, single-consumer channel: its
/// shared state and the two initial handles. The producer count starts at
/// one, for the returned sender.
pub fn channel<T, W>(capacity: usize) -> (r: (Channel<T, W>, Sender, Receiver))
    requires
        1 <= capacity <= 0x1000_0000,
    ensures
        r.0.wf(),
        r.0.ring.cap() == capacity,
        r.0.ring.head() == 0,
        r.0.ring.tail() == 0,
        !r.0.ring.closed(),
        r.0.tx_count == 1,
        r.0.tx_wait.list@.len() == 0,
        r.0.rx_wait.list@.len() == 0,
        r.0.tx_wait.next_id == 0,
        r.0.rx_wait.next_id == 0,
        !r.0.tx_wait.closed,
        !r.0.rx_wait.closed,
        r.0.wakes@.len() == 0,
        r.0.history() == Seq::<Option<T>>::empty(),
        r.0.ring.quiescent(),
{
    let ch = Channel {
        ring: Ring::new(capacity),
        tx_wait: WaitQueue::new(),
        rx_wait: WaitQueue::new(),
        tx_count: 1,
        wakes: Vec::new(),
    };
    (ch, Sender { token: () }, Receiver { token: () })
}

impl Sender {
    /// Claim a slot for writing without suspending. Succeeds exactly when
    /// the channel is open and a slot is writable; the claim is published
    /// with `Channel::publish`.
    pub fn try_send_ref<T, W>(&self, ch: &mut Channel<T, W>) -> (r: Result<
        SendRef,
        TrySendError<()>,
    >)
        requires
            old(ch).wf(),
            old(ch).ring.tail() + old(ch).ring.rsize() + 1 <= u64::MAX,
        ensures
            final(ch).wf(),
            r is Ok <==> (!old(ch).ring.closed() && old(ch).ring.can_push()),
            r matches Ok(s) ==> final(ch).ring.valid_send_ref(s) && final(ch).history()
                == old(ch).history().push(None) && final(ch).ring.send_ref_pos(s)
                == old(ch).ring.tail() && (old(ch).ring.quiescent()
                ==> final(ch).ring.quiescent_except(s.idx as int)),
            r is Err ==> final(ch).history() == old(ch).history() && final(ch).ring.can_pop()
                == old(ch).ring.can_pop() && final(ch).ring.can_push()
                == old(ch).ring.can_push(),
            r is Err && old(ch).ring.quiescent() ==> final(ch).ring.quiescent(),
            r matches Err(e) ==> (e is Closed <==> old(ch).ring.closed()),
            final(ch).ring.cap() == old(ch).ring.cap(),
            final(ch).ring.rsize() == old(ch).ring.rsize(),
            final(ch).delivered() == old(ch).delivered(),
            final(ch).tx_wait == old(ch).tx_wait,
            final(ch).rx_wait == old(ch).rx_wait,
            final(ch).wakes == old(ch).wakes,
            final(ch).ring.closed() == old(ch).ring.closed(),
    {
        ch.ring.push_claim()
    }

    /// Send without suspending: claim, write, publish in one step, and
    /// unpark a waiting consumer. On failure the value comes back so the
    /// caller may reuse it: Full when no slot is writable, Closed when the
    /// receiver is gone.
    pub fn try_send<T, W>(&self, ch: &mut Channel<T, W>, value: T) -> (r: Result<
        (),
        TrySendError<T>,
    >)
        requires
            old(ch).wf(),
            old(ch).ring.tail() + old(ch).ring.rsize() + 1 <= u64::MAX,
        ensures
            final(ch).wf(),
            r is Ok <==> (!old(ch).ring.closed() && old(ch).ring.can_push()),
            r is Ok ==> final(ch).history() == old(ch).history().push(Some(value)),
            r is Err ==> final(ch).history() == old(ch).history() && final(ch).wakes
                == old(ch).wakes,
            r matches Err(TrySendError::Full(v)) ==> v == value && !old(ch).ring.closed(),
            r matches Err(TrySendError::Closed(v)) ==> v == value && old(ch).ring.closed(),
            final(ch).delivered() == old(ch).delivered(),
            final(ch).ring.closed() == old(ch).ring.closed(),
            final(ch).tx_wait == old(ch).tx_wait,
            final(ch).tx_count == old(ch).tx_count,
            r is Ok && old(ch).rx_wait.list@.len() > 0 ==> final(ch).wakes@
                == old(ch).wakes@.push(old(ch).rx_wait.tokens()[0]) && final(ch).rx_wait.list@
                == old(ch).rx_wait.list@.subrange(1, old(ch).rx_wait.list@.len() as int),
            r is Ok && old(ch).rx_wait.list@.len() == 0 ==> final(ch).wakes == old(ch).wakes
                && final(ch).rx_wait.list@ == old(ch).rx_wait.list@,
            final(ch).ring.cap() == old(ch).ring.cap(),
            final(ch).ring.rsize() == old(ch).ring.rsize(),
            final(ch).rx_wait.closed == old(ch).rx_wait.closed,
            final(ch).rx_wait.next_id == old(ch).rx_wait.next_id,
            r is Err ==> final(ch).ring.can_pop() == old(ch).ring.can_pop()
                && final(ch).ring.can_push() == old(ch).ring.can_push(),
            old(ch).ring.quiescent() ==> final(ch).ring.quiescent(),
            old(ch).ring.quiescent() && r is Ok ==> final(ch).ring.can_pop(),
    {
        match ch.ring.try_push(value) {
            Ok(()) => {
                match ch.rx_wait.notify_one() {
                    Some(w) => {
                        ch.wakes.push(w.token);
                    },
                    None => {},
                }
                Ok(())
            },
            Err(e) => Err(e),
        }
    }

    /// Begin a suspendable send: the returned state is polled with a wake
    /// token until it yields a claim or reports the channel closed.
    pub fn send_ref(&self) -> (f: SendRefFuture)
        ensures
            !f.queued,
    {
        SendRefFuture { queued: false, waiter: 0 }
    }
}

impl SendRefFuture {
    /// One iteration of the suspendable send: try to claim; on Full, park
    /// on the producer waiter queue and report Pending; on a closed
    /// channel, fail with Closed. Each future parks at most one waiter: a
    /// re-poll that stays parked refreshes the token in place, keeping the
    /// caller's place in line, and any other outcome unparks it.
    pub fn poll<T, W>(&mut self, ch: &mut Channel<T, W>, token: W) -> (r: SendPoll<W>)
        requires
            old(ch).wf(),
            old(ch).ring.tail() + old(ch).ring.rsize() + 1 <= u64::MAX,
            old(ch).tx_wait.next_id < u64::MAX,
        ensures
            final(ch).wf(),
            r is Ready <==> (!old(ch).ring.closed() && old(ch).ring.can_push()),
            r is Closed <==> old(ch).ring.closed(),
            r matches SendPoll::Ready(s, t) ==> final(ch).ring.valid_send_ref(s) && final(ch).history() == old(ch).history().push(None) && final(ch).ring.send_ref_pos(s)
                == old(ch).ring.tail() && t == token && (old(ch).ring.quiescent()
                ==> final(ch).ring.quiescent_except(s.idx as int)),
            r matches SendPoll::Closed(t) ==> t == token,
            !(r is Ready) ==> final(ch).history() == old(ch).history() && final(ch).ring.tail()
                == old(ch).ring.tail() && final(ch).ring.can_push() == old(ch).ring.can_push()
                && final(ch).ring.can_pop() == old(ch).ring.can_pop(),
            !(r is Ready) && old(ch).ring.quiescent() ==> final(ch).ring.quiescent(),
            r is Pending ==> final(self).queued && final(ch).tx_wait.contains_id(
                final(self).waiter,
            ),
            !(r is Pending) ==> !final(self).queued,
            !(r is Pending) && old(self).queued ==> !final(ch).tx_wait.contains_id(
                old(self).waiter,
            ),
            !(r is Pending) && !old(self).queued ==> final(ch).tx_wait.list@
                == old(ch).tx_wait.list@,
            r is Pending && old(self).queued && old(ch).tx_wait.contains_id(old(self).waiter)
                ==> final(self).waiter == old(self).waiter && final(ch).tx_wait.ids()
                == old(ch).tx_wait.ids() && (forall|k: int| 0 <= k < old(ch).tx_wait.list@.len()
                && (#[trigger] old(ch).tx_wait.list@[k]).id == old(self).waiter ==> final(ch).tx_wait.list@[k] == (crate::wait::Waiter { id: old(self).waiter, token })),
            r is Pending && !(old(self).queued && old(ch).tx_wait.contains_id(old(self).waiter))
                ==> final(ch).tx_wait.list@ == old(ch).tx_wait.list@.push(
                (crate::wait::Waiter { id: final(self).waiter, token }),
            ),
            final(ch).ring.cap() == old(ch).ring.cap(),
            final(ch).ring.rsize() == old(ch).ring.rsize(),
            final(ch).tx_wait.closed == old(ch).tx_wait.closed,
            final(ch).tx_wait.next_id <= old(ch).tx_wait.next_id + 1,
            old(ch).tx_wait.next_id <= final(ch).tx_wait.next_id,
            final(ch).delivered() == old(ch).delivered(),
            final(ch).rx_wait == old(ch).rx_wait,
            final(ch).wakes == old(ch).wakes,
            final(ch).ring.closed() == old(ch).ring.closed(),
            final(ch).tx_count == old(ch).tx_count,
    {
        match ch.ring.push_claim() {
            Ok(s) => {
                if self.queued {
                    let _ = ch.tx_wait.remove(self.waiter);
                    self.queued = false;
                }
                SendPoll::Ready(s, token)
            },
            Err(TrySendError::Closed(_)) => {
                if self.queued {
                    let _ = ch.tx_wait.remove(self.waiter);
                    self.queued = false;
                }
                SendPoll::Closed(token)
            },
            Err(TrySendError::Full(_)) => {
                if self.queued && ch.tx_wait.contains(self.waiter) {
                    // still parked: refresh the token in place so the
                    // caller keeps its place in line
                    let _ = ch.tx_wait.continue_wait(self.waiter, token);
                    SendPoll::Pending
                } else {
                    // first poll, or a wakeup raced with a claim that
                    // failed: park at the back of the line
                    match ch.tx_wait.start_wait(token) {
                        Ok(id) => {
                            self.queued = true;
                            self.waiter = id;
                            SendPoll::Pending
                        },
                        Err(_t) => {
                            // the producer queue closes only together with
                            // the ring, and a closed ring cannot report Full
                            proof {
                                assert(false);
                            }
                            vstd::pervasive::unreached()
                        },
                    }
                }
            },
        }
    }

    /// Cancel a pending send: unpark this caller. If its wakeup had
    /// already been handed out, pass one on to the next parked producer,
    /// so no wakeup is swallowed.
    pub fn cancel<T, W>(self, ch: &mut Channel<T, W>)
        requires
            old(ch).wf(),
        ensures
            final(ch).wf(),
            final(ch).ring == old(ch).ring,
            final(ch).history() == old(ch).history(),
            final(ch).delivered() == old(ch).delivered(),
            final(ch).rx_wait == old(ch).rx_wait,
            final(ch).tx_count == old(ch).tx_count,
            final(ch).tx_wait.next_id == old(ch).tx_wait.next_id,
            final(ch).tx_wait.closed == old(ch).tx_wait.closed,
            self.queued ==> !final(ch).tx_wait.contains_id(self.waiter),
            self.queued && old(ch).tx_wait.contains_id(self.waiter) ==> final(ch).tx_wait.list@.len() == old(ch).tx_wait.list@.len() - 1 && final(ch).wakes
                == old(ch).wakes,
            self.queued && !old(ch).tx_wait.contains_id(self.waiter) && old(ch).tx_wait.list@.len() > 0 ==> final(ch).wakes@ == old(ch).wakes@.push(
                old(ch).tx_wait.tokens()[0],
            ) && final(ch).tx_wait.list@ == old(ch).tx_wait.list@.subrange(
                1,
                old(ch).tx_wait.list@.len() as int,
            ),
            self.queued && !old(ch).tx_wait.contains_id(self.waiter) && old(ch).tx_wait.list@.len() == 0 ==> final(ch).wakes == old(ch).wakes && final(ch).tx_wait.list@ == old(ch).tx_wait.list@,
            !self.queued ==> final(ch).tx_wait.list@ == old(ch).tx_wait.list@ && final(ch).wakes == old(ch).wakes,
    {
        if self.queued {
            match ch.tx_wait.remove(self.waiter) {
                Some(_parked) => {
                    // never notified: just unlinked, its token is dropped
                },
                None => {
                    // a notifier already took this waiter's token; hand the
                    // wakeup to the next parked producer instead
                    let ghost mid = ch.tx_wait;
                    match ch.tx_wait.notify_one() {
                        Some(w) => {
                            ch.wakes.push(w.token);
                        },
                        None => {},
                    }
                    proof {
                        if ch.tx_wait.contains_id(self.waiter) {
                            let k = choose|k: int|
                                0 <= k < ch.tx_wait.ids().len() && ch.tx_wait.ids()[k]
                                    == self.waiter;
                            assert(ch.tx_wait.list@[k].id == self.waiter);
                            if mid.list@.len() > 0 {
                                assert(ch.tx_wait.list@[k] == mid.list@[k + 1]);
                                assert(mid.ids()[k + 1] == self.waiter);
                            }
                            assert(false);
                        }
                    }
                },
            }
        }
    }
}

impl Receiver {
    /// Begin a suspendable receive of a slot claim.
    pub fn recv_ref(&self) -> (f: RecvRefFuture)
    {
        RecvRefFuture { token: () }
    }

    /// Begin a suspendable receive that moves the value out.
    pub fn recv(&self) -> (f: RecvFuture)
    {
        RecvFuture { token: () }
    }

    /// One iteration of the suspendable claim-receive: if a message is
    /// published at the head, claim it; if the channel is closed and
    /// drained, report end of stream; otherwise park the consumer's wake
    /// token and report Pending. Only the token of the most recent poll
    /// stays parked. One corner parks nothing: when the consumer queue is
    /// already closed (the producers are gone while a send claim is still
    /// unpublished), Pending comes back with the queue untouched, and the
    /// outstanding claim's publish is the event that makes progress.
    pub fn poll_recv_ref<T, W>(&self, ch: &mut Channel<T, W>, token: W) -> (r: RecvPoll<
        RecvRef,
        W,
    >)
        requires
            old(ch).wf(),
            old(ch).rx_wait.next_id < u64::MAX,
        ensures
            final(ch).wf(),
            r is Ready <==> old(ch).ring.can_pop(),
            r matches RecvPoll::Ready(rr, t) ==> final(ch).ring.valid_recv_ref(rr) && final(ch).ring.recv_ref_pos(rr) == old(ch).delivered() && final(ch).delivered() == old(ch).delivered() + 1 && t == token && final(ch).ring.slots@[rr.idx as int].value
                == final(ch).history()[old(ch).delivered()] && final(ch).history()[old(ch).delivered()] is Some,
            r is End ==> old(ch).ring.closed() && old(ch).ring.tail() == old(ch).ring.head(),
            old(ch).ring.closed() && old(ch).ring.tail() == old(ch).ring.head() ==> r is End,
            r matches RecvPoll::End(t) ==> t == token,
            r is Ready ==> old(ch).ring.tail() > old(ch).ring.head(),
            r is Pending && old(ch).rx_wait.closed ==> final(ch).rx_wait.list@
                == old(ch).rx_wait.list@,
            r matches RecvPoll::Ready(rr2, t2) ==> (old(ch).ring.quiescent() ==> final(ch).ring.quiescent_except(rr2.idx as int)),
            r is Pending ==> final(ch).delivered() == old(ch).delivered(),
            !(r is Ready) ==> final(ch).ring.can_push() == old(ch).ring.can_push()
                && final(ch).ring.can_pop() == old(ch).ring.can_pop(),
            r is Pending && old(ch).ring.quiescent() ==> final(ch).ring.quiescent(),
            r is Pending && !old(ch).rx_wait.closed ==> final(ch).rx_wait.list@.len() > 0
                && final(ch).rx_wait.list@[0].token == token,
            r is Pending && old(ch).rx_wait.list@.len() > 0 ==> final(ch).rx_wait.list@.len()
                == old(ch).rx_wait.list@.len(),
            final(ch).history() == old(ch).history(),
            final(ch).ring.tail() == old(ch).ring.tail(),
            final(ch).ring.closed() == old(ch).ring.closed(),
            final(ch).ring.cap() == old(ch).ring.cap(),
            final(ch).ring.rsize() == old(ch).ring.rsize(),
            final(ch).rx_wait.closed == old(ch).rx_wait.closed,
            final(ch).rx_wait.next_id <= old(ch).rx_wait.next_id + 1,
            old(ch).rx_wait.next_id <= final(ch).rx_wait.next_id,
            final(ch).tx_wait == old(ch).tx_wait,
            final(ch).wakes == old(ch).wakes,
            final(ch).tx_count == old(ch).tx_count,
    {
        match ch.ring.pop_claim() {
            Ok(rr) => RecvPoll::Ready(rr, token),
            Err(TryRecvError::Closed) => RecvPoll::End(token),
            Err(TryRecvError::Empty) => {
                match ch.rx_wait.front_id() {
                    Some(id) => {
                        let _ = ch.rx_wait.continue_wait(id, token);
                    },
                    None => {
                        match ch.rx_wait.start_wait(token) {
                            Ok(_id) => {},
                            Err(_t) => {},
                        }
                    },
                }
                RecvPoll::Pending
            },
        }
    }

    /// One iteration of the suspendable value-receive: like
    /// `poll_recv_ref`, but the message is moved out and its slot released
    /// at once, and the longest-waiting producer is unparked. The value
    /// returned is exactly the oldest undelivered entry of the channel's
    /// history: nothing is delivered twice and nothing is skipped. When no
    /// claim is outstanding, delivering out of a full open channel makes
    /// the next push possible again. As with `poll_recv_ref`, a Pending
    /// against an already-closed consumer queue parks nothing: the
    /// outstanding claim's publish is the event that makes progress.
    pub fn poll_recv<T, W>(&self, ch: &mut Channel<T, W>, token: W) -> (r: RecvPoll<T, W>)
        requires
            old(ch).wf(),
            old(ch).rx_wait.next_id < u64::MAX,
        ensures
            final(ch).wf(),
            r is Ready <==> old(ch).ring.can_pop(),
            r matches RecvPoll::Ready(v, t) ==> Some(v) == old(ch).history()[old(ch).delivered()] && final(ch).delivered() == old(ch).delivered() + 1 && t == token,
            r is End ==> old(ch).ring.closed() && old(ch).ring.tail() == old(ch).ring.head()
                && old(ch).delivered() == old(ch).history().len(),
            old(ch).ring.closed() && old(ch).ring.tail() == old(ch).ring.head() ==> r is End,
            r matches RecvPoll::End(t) ==> t == token,
            r is Ready ==> old(ch).ring.tail() > old(ch).ring.head(),
            r is Pending && old(ch).rx_wait.closed ==> final(ch).rx_wait.list@
                == old(ch).rx_wait.list@,
            old(ch).ring.quiescent() ==> final(ch).ring.quiescent(),
            r is Pending ==> final(ch).delivered() == old(ch).delivered(),
            !(r is Ready) ==> final(ch).ring.can_push() == old(ch).ring.can_push()
                && final(ch).ring.can_pop() == old(ch).ring.can_pop(),
            r is Pending && !old(ch).rx_wait.closed ==> final(ch).rx_wait.list@.len() > 0
                && final(ch).rx_wait.list@[0].token == token,
            r is Pending && old(ch).rx_wait.list@.len() > 0 ==> final(ch).rx_wait.list@.len()
                == old(ch).rx_wait.list@.len(),
            final(ch).history() == old(ch).history(),
            final(ch).ring.closed() == old(ch).ring.closed(),
            final(ch).ring.tail() == old(ch).ring.tail(),
            final(ch).ring.cap() == old(ch).ring.cap(),
            final(ch).ring.rsize() == old(ch).ring.rsize(),
            final(ch).rx_wait.closed == old(ch).rx_wait.closed,
            final(ch).rx_wait.next_id <= old(ch).rx_wait.next_id + 1,
            old(ch).rx_wait.next_id <= final(ch).rx_wait.next_id,
            final(ch).tx_count == old(ch).tx_count,
            r is Ready && old(ch).ring.quiescent() && !old(ch).ring.closed() ==> final(ch).ring.can_push(),
            final(ch).tx_wait.closed == old(ch).tx_wait.closed,
            final(ch).tx_wait.next_id == old(ch).tx_wait.next_id,
            r is Ready && old(ch).tx_wait.list@.len() > 0 ==> final(ch).wakes@
                == old(ch).wakes@.push(old(ch).tx_wait.tokens()[0]) && final(ch).tx_wait.list@
                == old(ch).tx_wait.list@.subrange(1, old(ch).tx_wait.list@.len() as int),
            r is Ready && old(ch).tx_wait.list@.len() == 0 ==> final(ch).wakes
                == old(ch).wakes && final(ch).tx_wait.list@ == old(ch).tx_wait.list@,
            !(r is Ready) ==> final(ch).wakes == old(ch).wakes && final(ch).tx_wait == old(ch).tx_wait,
    {
        match ch.ring.try_pop() {
            Ok(v) => {
                match ch.tx_wait.notify_one() {
                    Some(w) => {
                        ch.wakes.push(w.token);
                    },
                    None => {},
                }
                RecvPoll::Ready(v, token)
            },
            Err(TryRecvError::Closed) => RecvPoll::End(token),
            Err(TryRecvError::Empty) => {
                match ch.rx_wait.front_id() {
                    Some(id) => {
                        let _ = ch.rx_wait.continue_wait(id, token);
                    },
                    None => {
                        match ch.rx_wait.start_wait(token) {
                            Ok(_id) => {},
                            Err(_t) => {},
                        }
                    },
                }
                RecvPoll::Pending
            },
        }
    }

    /// Whether the channel has been closed by either side.
    pub fn is_closed<T, W>(&self, ch: &Channel<T, W>) -> (b: bool)
        ensures
            b == ch.ring.closed(),
    {
        ch.ring.is_closed()
    }
}

impl RecvRefFuture {
    /// Poll the claim-receive: the behaviour of `Receiver::poll_recv_ref`,
    /// clause for clause.
    pub fn poll<T, W>(&self, rx: &Receiver, ch: &mut Channel<T, W>, token: W) -> (r: RecvPoll<
        RecvRef,
        W,
    >)
        requires
            old(ch).wf(),
            old(ch).rx_wait.next_id < u64::MAX,
        ensures
            final(ch).wf(),
            r is Ready <==> old(ch).ring.can_pop(),
            r matches RecvPoll::Ready(rr, t) ==> final(ch).ring.valid_recv_ref(rr) && final(ch).ring.recv_ref_pos(rr) == old(ch).delivered() && final(ch).delivered() == old(ch).delivered() + 1 && t == token && final(ch).ring.slots@[rr.idx as int].value
                == final(ch).history()[old(ch).delivered()] && final(ch).history()[old(ch).delivered()] is Some,
            r is End ==> old(ch).ring.closed() && old(ch).ring.tail() == old(ch).ring.head(),
            old(ch).ring.closed() && old(ch).ring.tail() == old(ch).ring.head() ==> r is End,
            r matches RecvPoll::End(t) ==> t == token,
            r is Ready ==> old(ch).ring.tail() > old(ch).ring.head(),
            r is Pending && old(ch).rx_wait.closed ==> final(ch).rx_wait.list@
                == old(ch).rx_wait.list@,
            r matches RecvPoll::Ready(rr2, t2) ==> (old(ch).ring.quiescent() ==> final(ch).ring.quiescent_except(rr2.idx as int)),
            r is Pending ==> final(ch).delivered() == old(ch).delivered(),
            !(r is Ready) ==> final(ch).ring.can_push() == old(ch).ring.can_push()
                && final(ch).ring.can_pop() == old(ch).ring.can_pop(),
            r is Pending && old(ch).ring.quiescent() ==> final(ch).ring.quiescent(),
            r is Pending && !old(ch).rx_wait.closed ==> final(ch).rx_wait.list@.len() > 0
                && final(ch).rx_wait.list@[0].token == token,
            r is Pending && old(ch).rx_wait.list@.len() > 0 ==> final(ch).rx_wait.list@.len()
                == old(ch).rx_wait.list@.len(),
            final(ch).history() == old(ch).history(),
            final(ch).ring.tail() == old(ch).ring.tail(),
            final(ch).ring.closed() == old(ch).ring.closed(),
            final(ch).ring.cap() == old(ch).ring.cap(),
            final(ch).ring.rsize() == old(ch).ring.rsize(),
            final(ch).rx_wait.closed == old(ch).rx_wait.closed,
            final(ch).rx_wait.next_id <= old(ch).rx_wait.next_id + 1,
            old(ch).rx_wait.next_id <= final(ch).rx_wait.next_id,
            final(ch).tx_wait == old(ch).tx_wait,
            final(ch).wakes == old(ch).wakes,
            final(ch).tx_count == old(ch).tx_count,
    {
        rx.poll_recv_ref(ch, token)
    }
}

impl RecvFuture {
    /// Poll the value-receive: the behaviour of `Receiver::poll_recv`,
    /// clause for clause.
    pub fn poll<T, W>(&self, rx: &Receiver, ch: &mut Channel<T, W>, token: W) -> (r: RecvPoll<
        T,
        W,
    >)
        requires
            old(ch).wf(),
            old(ch).rx_wait.next_id < u64::MAX,
        ensures
            final(ch).wf(),
            r is Ready <==> old(ch).ring.can_pop(),
            r matches RecvPoll::Ready(v, t) ==> Some(v) == old(ch).history()[old(ch).delivered()] && final(ch).delivered() == old(ch).delivered() + 1 && t == token,
            r is End ==> old(ch).ring.closed() && old(ch).ring.tail() == old(ch).ring.head()
                && old(ch).delivered() == old(ch).history().len(),
            old(ch).ring.closed() && old(ch).ring.tail() == old(ch).ring.head() ==> r is End,
            r matches RecvPoll::End(t) ==> t == token,
            r is Ready ==> old(ch).ring.tail() > old(ch).ring.head(),
            r is Pending && old(ch).rx_wait.closed ==> final(ch).rx_wait.list@
                == old(ch).rx_wait.list@,
            old(ch).ring.quiescent() ==> final(ch).ring.quiescent(),
            r is Pending ==> final(ch).delivered() == old(ch).delivered(),
            !(r is Ready) ==> final(ch).ring.can_push() == old(ch).ring.can_push()
                && final(ch).ring.can_pop() == old(ch).ring.can_pop(),
            r is Pending && !old(ch).rx_wait.closed ==> final(ch).rx_wait.list@.len() > 0
                && final(ch).rx_wait.list@[0].token == token,
            r is Pending && old(ch).rx_wait.list@.len() > 0 ==> final(ch).rx_wait.list@.len()
                == old(ch).rx_wait.list@.len(),
            final(ch).history() == old(ch).history(),
            final(ch).ring.closed() == old(ch).ring.closed(),
            final(ch).ring.tail() == old(ch).ring.tail(),
            final(ch).ring.cap() == old(ch).ring.cap(),
            final(ch).ring.rsize() == old(ch).ring.rsize(),
            final(ch).rx_wait.closed == old(ch).rx_wait.closed,
            final(ch).rx_wait.next_id <= old(ch).rx_wait.next_id + 1,
            old(ch).rx_wait.next_id <= final(ch).rx_wait.next_id,
            final(ch).tx_count == old(ch).tx_count,
            r is Ready && old(ch).ring.quiescent() && !old(ch).ring.closed() ==> final(ch).ring.can_push(),
            final(ch).tx_wait.closed == old(ch).tx_wait.closed,
            final(ch).tx_wait.next_id == old(ch).tx_wait.next_id,
            r is Ready && old(ch).tx_wait.list@.len() > 0 ==> final(ch).wakes@
                == old(ch).wakes@.push(old(ch).tx_wait.tokens()[0]) && final(ch).tx_wait.list@
                == old(ch).tx_wait.list@.subrange(1, old(ch).tx_wait.list@.len() as int),
            r is Ready && old(ch).tx_wait.list@.len() == 0 ==> final(ch).wakes
                == old(ch).wakes && final(ch).tx_wait.list@ == old(ch).tx_wait.list@,
            !(r is Ready) ==> final(ch).wakes == old(ch).wakes && final(ch).tx_wait == old(ch).tx_wait,
    {
        rx.poll_recv(ch, token)
    }
}

} // verus!

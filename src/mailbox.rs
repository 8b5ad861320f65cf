use std::collections::VecDeque;
use vstd::prelude::*;

verus! {

/// Why a message could not be posted; the message is handed back.
pub enum SendError<M> {
    /// The mailbox holds as many messages as its capacity.
    Full(M),
    /// The receiving side is gone: nothing will ever be read again.
    Closed(M),
}

/// A bounded, ordered, multi-producer single-consumer queue of messages.
pub struct Mailbox<M> {
    queue: VecDeque<M>,
    capacity: usize,
    closed: bool,
}

/// The queue after a message is posted to it.
pub open spec fn enqueue<M>(q: Seq<M>, m: M) -> Seq<M> {
    q.push(m)
}

/// The queue after its oldest message is taken.
pub open spec fn dequeue<M>(q: Seq<M>) -> Seq<M> {
    q.drop_first()
}

impl<M> Mailbox<M> {
    /// The messages waiting, oldest first.
    pub closed spec fn queued(&self) -> Seq<M> {
        self.queue@
    }

    pub closed spec fn cap(&self) -> nat {
        self.capacity as nat
    }

    pub closed spec fn is_closed(&self) -> bool {
        self.closed
    }

    pub open spec fn wf(&self) -> bool {
        0 < self.cap() && self.queued().len() <= self.cap()
    }

    pub fn new(capacity: usize) -> (r: Self)
        requires
            capacity > 0,
        ensures
            r.wf(),
            r.queued() == Seq::<M>::empty(),
            r.cap() == capacity,
            !r.is_closed(),
    {
        Mailbox { queue: VecDeque::new(), capacity, closed: false }
    }

    pub fn capacity(&self) -> (r: usize)
        ensures
            r == self.cap(),
    {
        self.capacity
    }

    pub fn len(&self) -> (r: usize)
        ensures
            r == self.queued().len(),
    {
        self.queue.len()
    }

    pub fn closed(&self) -> (r: bool)
        ensures
            r == self.is_closed(),
    {
        self.closed
    }

    /// Posts `m` behind every message already waiting, unless the mailbox is
    /// closed or full; a refused message comes back in the error.
    pub fn try_send(&mut self, m: M) -> (r: Result<(), SendError<M>>)
        requires
            old(self).wf(),
        ensures
            final(self).wf(),
            final(self).cap() == old(self).cap(),
            final(self).is_closed() == old(self).is_closed(),
            old(self).is_closed() ==> r == Err::<(), SendError<M>>(SendError::Closed(m))
                && final(self).queued() == old(self).queued(),
            !old(self).is_closed() && old(self).queued().len() == old(self).cap() ==> r == Err::<
                (),
                SendError<M>,
            >(SendError::Full(m)) && final(self).queued() == old(self).queued(),
            !old(self).is_closed() && old(self).queued().len() < old(self).cap() ==> r is Ok
                && final(self).queued() == enqueue(old(self).queued(), m),
    {
        if self.closed {
            return Err(SendError::Closed(m));
        }
        if self.queue.len() == self.capacity {
            return Err(SendError::Full(m));
        }
        self.queue.push_back(m);
        Ok(())
    }

    /// Takes the oldest waiting message, if any.
    pub fn recv(&mut self) -> (r: Option<M>)
        requires
            old(self).wf(),
        ensures
            final(self).wf(),
            final(self).cap() == old(self).cap(),
            final(self).is_closed() == old(self).is_closed(),
            old(self).queued().len() == 0 ==> r is None && final(self).queued() == old(
                self,
            ).queued(),
            old(self).queued().len() > 0 ==> r == Some(old(self).queued()[0])
                && final(self).queued() == dequeue(old(self).queued()),
    {
        self.queue.pop_front()
    }

    /// Closes the mailbox and hands back every message still waiting, oldest
    /// first; later sends fail with `Closed`.
    pub fn close(&mut self) -> (r: Vec<M>)
        requires
            old(self).wf(),
        ensures
            final(self).wf(),
            final(self).cap() == old(self).cap(),
            final(self).is_closed(),
            final(self).queued() == Seq::<M>::empty(),
            r@ == old(self).queued(),
    {
        let mut out: Vec<M> = Vec::new();
        while self.queue.len() > 0
            invariant
                0 < self.capacity,
                self.capacity == old(self).capacity,
                out@ + self.queue@ == old(self).queued(),
            decreases self.queue@.len(),
        {
            let m = self.queue.pop_front().unwrap();
            proof {
                assert(out@.push(m) + self.queue@ =~= old(self).queued());
            }
            out.push(m);
        }
        self.closed = true;
        assert(out@ =~= old(self).queued());
        out
    }
}

} // verus!

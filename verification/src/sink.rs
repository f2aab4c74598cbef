//! The streaming sink: a bounded, ordered, single-producer/single-consumer
//! conduit between the aggregator and the caller. A full sink makes the
//! producer wait (backpressure); a detached consumer makes every later push
//! fail gracefully; close signals "no more items" to the consumer.

use vstd::prelude::*;
use crate::model::Book;

verus! {

/// Outcome of a producer push.
#[derive(Debug, Clone, Copy, PartialEq, Eq, Structural)]
pub enum PushOutcome {
    /// The record was queued.
    Accepted,
    /// The sink is at capacity; the producer must wait for the consumer.
    Full,
    /// The consumer detached; the record was discarded.
    Closed,
}

/// Outcome of a consumer read.
pub enum PopOutcome {
    /// The oldest queued record.
    Item(Book),
    /// Nothing queued yet, but the producer has not closed.
    Pending,
    /// The producer closed and everything queued was consumed.
    End,
}

/// The bounded conduit. `accepted` records every value the sink ever took,
/// in order; `taken` the prefix of it already handed to the consumer.
pub struct BookSink {
    /// Records accepted but not yet consumed, oldest first.
    pub buf: Vec<Book>,
    /// The fixed bound on `buf`.
    pub capacity: usize,
    /// The producer signalled "no more items".
    pub closed: bool,
    /// The consumer is gone.
    pub detached: bool,
    /// Every record ever accepted, in order.
    pub accepted: Ghost<Seq<Book>>,
    /// Every record handed to the consumer, in order.
    pub taken: Ghost<Seq<Book>>,
}

impl BookSink {
    /// The sink's invariant: the queue is within capacity, and what was
    /// accepted is exactly what was consumed followed by what is queued.
    pub open spec fn wf(&self) -> bool {
        &&& self.capacity >= 1
        &&& self.buf@.len() <= self.capacity
        &&& self.accepted@ == self.taken@ + self.buf@
    }

    /// Records accepted and not yet consumed, oldest first.
    pub open spec fn queued(&self) -> Seq<Book> {
        self.buf@
    }

    /// The fixed capacity.
    pub open spec fn cap(&self) -> nat {
        self.capacity as nat
    }

    /// Every record ever accepted, in order.
    pub open spec fn log(&self) -> Seq<Book> {
        self.accepted@
    }

    /// Every record handed to the consumer, in order.
    pub open spec fn consumed(&self) -> Seq<Book> {
        self.taken@
    }

    /// Whether the producer has closed the sink.
    pub open spec fn is_closed(&self) -> bool {
        self.closed
    }

    /// Whether the consumer has detached.
    pub open spec fn is_detached(&self) -> bool {
        self.detached
    }

    /// A fresh open sink with the given capacity.
    pub fn new(capacity: usize) -> (s: BookSink)
        requires
            capacity >= 1,
        ensures
            s.wf(),
            s.cap() == capacity,
            s.queued() == Seq::<Book>::empty(),
            s.log() == Seq::<Book>::empty(),
            s.consumed() == Seq::<Book>::empty(),
            !s.is_closed(),
            !s.is_detached(),
    {
        let s = BookSink {
            buf: Vec::new(),
            capacity,
            closed: false,
            detached: false,
            accepted: Ghost(Seq::empty()),
            taken: Ghost(Seq::empty()),
        };
        proof {
            assert(s.accepted@ =~= s.taken@ + s.buf@);
        }
        s
    }

    /// Whether a push would find the consumer gone.
    pub fn consumer_detached(&self) -> (r: bool)
        ensures
            r == self.is_detached(),
    {
        self.detached
    }

    /// How many records are queued.
    pub fn queued_len(&self) -> (n: usize)
        ensures
            n == self.queued().len(),
    {
        self.buf.len()
    }

    /// The producer's push. A record is accepted only below capacity and while
    /// the consumer is attached; a full sink drops nothing and accepts nothing;
    /// a detached consumer turns every push into `Closed`, never a fault.
    pub fn push(&mut self, b: Book) -> (r: PushOutcome)
        requires
            old(self).wf(),
            !old(self).is_closed(),
        ensures
            final(self).wf(),
            !final(self).is_closed(),
            final(self).cap() == old(self).cap(),
            final(self).is_detached() == old(self).is_detached(),
            final(self).consumed() == old(self).consumed(),
            match r {
                PushOutcome::Accepted => {
                    &&& !old(self).is_detached()
                    &&& old(self).queued().len() < old(self).cap()
                    &&& final(self).queued() == old(self).queued().push(b)
                    &&& final(self).log() == old(self).log().push(b)
                },
                PushOutcome::Full => {
                    &&& !old(self).is_detached()
                    &&& old(self).queued().len() == old(self).cap()
                    &&& *final(self) == *old(self)
                },
                PushOutcome::Closed => {
                    &&& old(self).is_detached()
                    &&& *final(self) == *old(self)
                },
            },
    {
        if self.detached {
            PushOutcome::Closed
        } else if self.buf.len() == self.capacity {
            PushOutcome::Full
        } else {
            self.buf.push(b);
            proof {
                self.accepted@ = self.accepted@.push(b);
                assert(self.accepted@ =~= self.taken@ + self.buf@);
            }
            PushOutcome::Accepted
        }
    }

    /// The consumer's read: the oldest queued record, or `Pending` while the
    /// producer is still running, or `End` once the sink is closed and drained.
    pub fn pop(&mut self) -> (r: PopOutcome)
        requires
            old(self).wf(),
        ensures
            final(self).wf(),
            final(self).cap() == old(self).cap(),
            final(self).is_closed() == old(self).is_closed(),
            final(self).is_detached() == old(self).is_detached(),
            final(self).log() == old(self).log(),
            match r {
                PopOutcome::Item(b) => {
                    &&& old(self).queued().len() > 0
                    &&& b == old(self).queued()[0]
                    &&& final(self).queued() == old(self).queued().drop_first()
                    &&& final(self).consumed() == old(self).consumed().push(b)
                },
                PopOutcome::Pending => {
                    &&& old(self).queued().len() == 0
                    &&& !old(self).is_closed()
                    &&& *final(self) == *old(self)
                },
                PopOutcome::End => {
                    &&& old(self).queued().len() == 0
                    &&& old(self).is_closed()
                    &&& *final(self) == *old(self)
                },
            },
    {
        if self.buf.len() > 0 {
            let b = self.buf.remove(0);
            proof {
                self.taken@ = self.taken@.push(b);
                assert(self.accepted@ =~= self.taken@ + self.buf@);
            }
            PopOutcome::Item(b)
        } else if self.closed {
            PopOutcome::End
        } else {
            PopOutcome::Pending
        }
    }

    /// The producer's explicit "no more items" signal.
    pub fn close(&mut self)
        requires
            old(self).wf(),
        ensures
            final(self).wf(),
            final(self).is_closed(),
            final(self).cap() == old(self).cap(),
            final(self).is_detached() == old(self).is_detached(),
            final(self).queued() == old(self).queued(),
            final(self).log() == old(self).log(),
            final(self).consumed() == old(self).consumed(),
    {
        self.closed = true;
    }

    /// The consumer's cancellation: after this, every push fails gracefully.
    pub fn detach(&mut self)
        requires
            old(self).wf(),
        ensures
            final(self).wf(),
            final(self).is_detached(),
            final(self).cap() == old(self).cap(),
            final(self).is_closed() == old(self).is_closed(),
            final(self).queued() == old(self).queued(),
            final(self).log() == old(self).log(),
            final(self).consumed() == old(self).consumed(),
    {
        self.detached = true;
    }

    /// Backpressure: a well-formed sink never holds more than its capacity.
    pub proof fn lemma_bounded(&self)
        requires
            self.wf(),
        ensures
            self.queued().len() <= self.cap(),
    {
    }

    /// Delivery order: what the consumer has read is exactly the prefix of
    /// what the producer pushed, in push order.
    pub proof fn lemma_delivery_prefix(&self)
        requires
            self.wf(),
        ensures
            self.consumed().len() <= self.log().len(),
            self.consumed() == self.log().subrange(0, self.consumed().len() as int),
    {
        assert(self.consumed() =~= self.log().subrange(0, self.consumed().len() as int));
    }
}

} // verus!

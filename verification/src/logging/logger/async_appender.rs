//! The shared state of an asynchronous appender: a bounded queue of log entries between the
//! writers and the worker that drains it into the inner sink, with the wakers to notify.
use vstd::prelude::*;

verus! {

/// The most entries the queue holds.
pub const QUEUE_LIMIT: usize = 10000;

/// The error of a write to an appender that has closed.
#[derive(Debug, Clone, Copy, PartialEq, Eq, Structural)]
pub struct Closed;

impl Closed {
    /// The error's message.
    pub fn to_string(&self) -> (r: String)
        ensures
            r@ == "Sink has already closed"@,
    {
        crate::text::string_of("Sink has already closed")
    }
}

/// Whether a writer may send to the appender now.
#[derive(Debug, Clone, Copy, PartialEq, Eq, Structural)]
pub enum SendStatus {
    /// The appender has closed.
    Closed,
    /// The queue has room.
    Ready,
    /// The queue is full: the writer waits for the worker.
    Full,
}

/// The queue and flags shared between the writers and the worker; `W` is the waker type.
pub struct State<T, W> {
    queue: std::collections::VecDeque<T>,
    write_waker: Option<W>,
    read_waker: Option<W>,
    flushed: bool,
    closed: bool,
    /// Every entry queued so far, in order.
    sent: Ghost<Seq<T>>,
    /// Every entry taken by the worker so far, in order.
    delivered: Ghost<Seq<T>>,
}

/// What the worker does next.
#[derive(Debug, Clone, Copy, PartialEq, Eq, Structural)]
pub enum WorkerStep {
    /// Hand the oldest entry to the inner sink, once it is ready.
    Deliver,
    /// Flush the inner sink, then record it with [`State::finish_flush`].
    Flush,
    /// Close the inner sink; once it has closed, the worker is done.
    Close,
    /// Wait to be woken.
    Wait,
}

impl<T, W> State<T, W> {
    /// The queued entries, oldest first.
    pub closed spec fn spec_queue(&self) -> Seq<T> {
        self.queue@
    }

    /// Whether everything sent has been flushed by the worker.
    pub closed spec fn spec_flushed(&self) -> bool {
        self.flushed
    }

    /// Whether the appender has closed.
    pub closed spec fn spec_closed(&self) -> bool {
        self.closed
    }

    /// The waker of a writer waiting for room or for a flush.
    pub closed spec fn spec_write_waker(&self) -> Option<W> {
        self.write_waker
    }

    /// The waker of the worker waiting for entries.
    pub closed spec fn spec_read_waker(&self) -> Option<W> {
        self.read_waker
    }

    /// Every entry queued so far, in order.
    pub closed spec fn spec_sent(&self) -> Seq<T> {
        self.sent@
    }

    /// Every entry the worker has taken so far, in order.
    pub closed spec fn spec_delivered(&self) -> Seq<T> {
        self.delivered@
    }

    /// The queue never holds more than `QUEUE_LIMIT` entries, and the entries taken by the
    /// worker followed by those still queued are exactly the entries sent, in order.
    pub open spec fn wf(&self) -> bool {
        &&& self.spec_queue().len() <= QUEUE_LIMIT
        &&& self.spec_delivered() + self.spec_queue() == self.spec_sent()
    }

    /// An open appender with an empty, flushed queue and no waiters.
    pub fn new() -> (r: Self)
        ensures
            r.wf(),
            r.spec_queue() == Seq::<T>::empty(),
            r.spec_flushed(),
            !r.spec_closed(),
            r.spec_write_waker() is None,
            r.spec_read_waker() is None,
            r.spec_sent() == Seq::<T>::empty(),
            r.spec_delivered() == Seq::<T>::empty(),
    {
        State {
            queue: std::collections::VecDeque::new(),
            write_waker: None,
            read_waker: None,
            flushed: true,
            closed: false,
            sent: Ghost(Seq::empty()),
            delivered: Ghost(Seq::empty()),
        }
    }

    /// The number of queued entries.
    pub fn len(&self) -> (r: usize)
        ensures
            r == self.spec_queue().len(),
    {
        self.queue.len()
    }

    /// Whether the queue has room.
    pub fn ready(&self) -> (r: bool)
        ensures
            r == (self.spec_queue().len() < QUEUE_LIMIT),
    {
        self.queue.len() < QUEUE_LIMIT
    }

    /// Whether the appender has closed.
    pub fn is_closed(&self) -> (r: bool)
        ensures
            r == self.spec_closed(),
    {
        self.closed
    }

    /// Whether everything sent has been flushed.
    pub fn is_flushed(&self) -> (r: bool)
        ensures
            r == self.spec_flushed(),
    {
        self.flushed
    }

    /// Whether the worker is done: everything is flushed and the appender has closed.
    pub fn is_done(&self) -> (r: bool)
        ensures
            r == (self.spec_flushed() && self.spec_closed()),
    {
        self.flushed && self.closed
    }

    /// Whether a writer may send now (`Sink::poll_ready` of the appender).
    pub fn send_status(&self) -> (r: SendStatus)
        ensures
            r == (if self.spec_closed() {
                SendStatus::Closed
            } else if self.spec_queue().len() < QUEUE_LIMIT {
                SendStatus::Ready
            } else {
                SendStatus::Full
            }),
    {
        if self.closed {
            SendStatus::Closed
        } else if self.ready() {
            SendStatus::Ready
        } else {
            SendStatus::Full
        }
    }

    /// Queues an entry at the back, marks the queue unflushed, and returns the worker's waker
    /// to wake.
    pub fn start_send(&mut self, item: T) -> (wake: Option<W>)
        requires
            old(self).wf(),
            old(self).spec_queue().len() < QUEUE_LIMIT,
        ensures
            final(self).spec_sent() == old(self).spec_sent().push(item),
            final(self).spec_delivered() == old(self).spec_delivered(),
            final(self).wf(),
            final(self).spec_queue() == old(self).spec_queue().push(item),
            !final(self).spec_flushed(),
            final(self).spec_closed() == old(self).spec_closed(),
            wake == old(self).spec_read_waker(),
            final(self).spec_read_waker() is None,
            final(self).spec_write_waker() == old(self).spec_write_waker(),
    {
        self.sent = Ghost(self.sent@.push(item));
        self.queue.push_back(item);
        self.flushed = false;
        assert(self.delivered@ + self.queue@ =~= self.sent@);
        self.read_waker.take()
    }

    /// Sends an entry unless the appender has closed or the queue is full, in which case the
    /// entry is handed back.
    pub fn try_send(&mut self, item: T) -> (r: Result<Option<W>, T>)
        requires
            old(self).wf(),
        ensures
            final(self).wf(),
            final(self).spec_closed() == old(self).spec_closed(),
            r is Err <==> (old(self).spec_closed() || old(self).spec_queue().len() >= QUEUE_LIMIT),
            r matches Err(x) ==> x == item && *final(self) == *old(self),
            r matches Ok(wake) ==> {
                &&& final(self).spec_queue() == old(self).spec_queue().push(item)
                &&& final(self).spec_sent() == old(self).spec_sent().push(item)
                &&& final(self).spec_delivered() == old(self).spec_delivered()
                &&& !final(self).spec_flushed()
                &&& wake == old(self).spec_read_waker()
                &&& final(self).spec_read_waker() is None
                &&& final(self).spec_write_waker() == old(self).spec_write_waker()
            },
    {
        if self.closed || !self.ready() {
            return Err(item);
        }
        Ok(self.start_send(item))
    }

    /// Closes the appender, returning the worker's and the writer's wakers to wake; closing
    /// again does nothing.
    pub fn start_close(&mut self) -> (wake: (Option<W>, Option<W>))
        ensures
            final(self).spec_closed(),
            final(self).spec_queue() == old(self).spec_queue(),
            final(self).spec_flushed() == old(self).spec_flushed(),
            final(self).spec_sent() == old(self).spec_sent(),
            final(self).spec_delivered() == old(self).spec_delivered(),
            old(self).spec_closed() ==> *final(self) == *old(self) && wake.0 is None && wake.1 is None,
            !old(self).spec_closed() ==> {
                &&& wake.0 == old(self).spec_read_waker()
                &&& wake.1 == old(self).spec_write_waker()
                &&& final(self).spec_read_waker() is None
                &&& final(self).spec_write_waker() is None
            },
    {
        if self.closed {
            return (None, None);
        }
        self.closed = true;
        let r = self.read_waker.take();
        let w = self.write_waker.take();
        (r, w)
    }

    /// The waker of a waiting writer.
    pub fn write_waker(&self) -> (r: &Option<W>)
        ensures
            *r == self.spec_write_waker(),
    {
        &self.write_waker
    }

    /// The waker of the waiting worker.
    pub fn read_waker(&self) -> (r: &Option<W>)
        ensures
            *r == self.spec_read_waker(),
    {
        &self.read_waker
    }

    /// Registers the waker of a waiting writer.
    pub fn set_write_waker(&mut self, w: W)
        ensures
            final(self).spec_write_waker() == Some(w),
            final(self).spec_sent() == old(self).spec_sent(),
            final(self).spec_delivered() == old(self).spec_delivered(),
            final(self).spec_read_waker() == old(self).spec_read_waker(),
            final(self).spec_queue() == old(self).spec_queue(),
            final(self).spec_flushed() == old(self).spec_flushed(),
            final(self).spec_closed() == old(self).spec_closed(),
    {
        self.write_waker = Some(w);
    }

    /// Registers the waker of the waiting worker.
    pub fn set_read_waker(&mut self, w: W)
        ensures
            final(self).spec_read_waker() == Some(w),
            final(self).spec_sent() == old(self).spec_sent(),
            final(self).spec_delivered() == old(self).spec_delivered(),
            final(self).spec_write_waker() == old(self).spec_write_waker(),
            final(self).spec_queue() == old(self).spec_queue(),
            final(self).spec_flushed() == old(self).spec_flushed(),
            final(self).spec_closed() == old(self).spec_closed(),
    {
        self.read_waker = Some(w);
    }

    /// The worker takes the oldest entry, and the waiting writer's waker to wake now that the
    /// queue has room.
    pub fn pop_front(&mut self) -> (r: (Option<T>, Option<W>))
        requires
            old(self).wf(),
        ensures
            final(self).wf(),
            final(self).spec_sent() == old(self).spec_sent(),
            old(self).spec_queue().len() > 0 ==> final(self).spec_delivered() == old(
                self,
            ).spec_delivered().push(old(self).spec_queue()[0]),
            old(self).spec_queue().len() == 0 ==> final(self).spec_delivered() == old(
                self,
            ).spec_delivered(),
            old(self).spec_queue().len() > 0 ==> {
                &&& r.0 == Some(old(self).spec_queue()[0])
                &&& final(self).spec_queue() == old(self).spec_queue().drop_first()
                &&& r.1 == old(self).spec_write_waker()
                &&& final(self).spec_write_waker() is None
            },
            old(self).spec_queue().len() == 0 ==> r.0 is None && r.1 is None && final(self).spec_queue()
                == old(self).spec_queue() && final(self).spec_write_waker() == old(self).spec_write_waker(),
            final(self).spec_flushed() == old(self).spec_flushed(),
            final(self).spec_closed() == old(self).spec_closed(),
            final(self).spec_read_waker() == old(self).spec_read_waker(),
    {
        let ghost q = self.queue@;
        match self.queue.pop_front() {
            Some(v) => {
                self.delivered = Ghost(self.delivered@.push(v));
                assert(self.delivered@ + self.queue@ =~= old(self).delivered@ + q);
                let w = self.write_waker.take();
                (Some(v), w)
            },
            None => (None, None),
        }
    }

    /// What the worker does next: hands on queued entries first, then flushes what it
    /// handed on, and closes the inner sink only once the appender has closed and everything
    /// is handed on and flushed; otherwise it waits.
    pub fn worker_next(&self) -> (r: WorkerStep)
        ensures
            r == (if self.spec_queue().len() > 0 {
                WorkerStep::Deliver
            } else if !self.spec_flushed() {
                WorkerStep::Flush
            } else if self.spec_closed() {
                WorkerStep::Close
            } else {
                WorkerStep::Wait
            }),
    {
        if self.queue.len() > 0 {
            WorkerStep::Deliver
        } else if !self.flushed {
            WorkerStep::Flush
        } else if self.closed {
            WorkerStep::Close
        } else {
            WorkerStep::Wait
        }
    }

    /// Entries reach the worker exactly once each and in the order they were sent: those
    /// taken so far are a prefix of those sent, and the rest are queued in order.
    pub proof fn lemma_delivered_in_order(&self)
        requires
            self.wf(),
        ensures
            self.spec_delivered() == self.spec_sent().take(self.spec_delivered().len() as int),
            self.spec_queue() == self.spec_sent().skip(self.spec_delivered().len() as int),
            self.spec_delivered().len() + self.spec_queue().len() == self.spec_sent().len(),
    {
        assert(self.spec_delivered() =~= self.spec_sent().take(self.spec_delivered().len() as int));
        assert(self.spec_queue() =~= self.spec_sent().skip(self.spec_delivered().len() as int));
    }

    /// Once the queue is empty, the worker has taken every entry ever sent, each exactly
    /// once and in order; in particular when it closes the inner sink
    /// ([`WorkerStep::Close`] needs an empty queue).
    pub proof fn lemma_all_delivered_when_empty(&self)
        requires
            self.wf(),
            self.spec_queue().len() == 0,
        ensures
            self.spec_delivered() == self.spec_sent(),
    {
        assert(self.spec_delivered() + self.spec_queue() =~= self.spec_delivered());
    }

    /// After the worker has flushed the inner sink: the queue counts as flushed if no entry
    /// came in meanwhile, and then the waiting writer's waker is returned to wake.
    pub fn finish_flush(&mut self) -> (wake: Option<W>)
        ensures
            final(self).spec_queue() == old(self).spec_queue(),
            final(self).spec_closed() == old(self).spec_closed(),
            final(self).spec_read_waker() == old(self).spec_read_waker(),
            final(self).spec_sent() == old(self).spec_sent(),
            final(self).spec_delivered() == old(self).spec_delivered(),
            old(self).spec_queue().len() == 0 ==> final(self).spec_flushed() && wake
                == old(self).spec_write_waker() && final(self).spec_write_waker() is None,
            old(self).spec_queue().len() > 0 ==> *final(self) == *old(self) && wake is None,
    {
        if self.queue.len() == 0 {
            self.flushed = true;
            self.write_waker.take()
        } else {
            None
        }
    }
}

/// One operation on the queue over a run: a writer queues an entry, or the worker takes one.
pub enum QueueOp<T> {
    Send(T),
    Take,
}

/// The entries that the operations send, in order.
pub open spec fn sent_by<T>(ops: Seq<QueueOp<T>>) -> Seq<T>
    decreases ops.len(),
{
    if ops.len() == 0 {
        Seq::empty()
    } else {
        match ops.last() {
            QueueOp::Send(x) => sent_by(ops.drop_last()).push(x),
            QueueOp::Take => sent_by(ops.drop_last()),
        }
    }
}

/// The entries the worker takes and those left queued after the operations, from an empty
/// queue, as [`State::start_send`] and [`State::pop_front`] change them.
pub open spec fn run_queue<T>(ops: Seq<QueueOp<T>>) -> (Seq<T>, Seq<T>)
    decreases ops.len(),
{
    if ops.len() == 0 {
        (Seq::empty(), Seq::empty())
    } else {
        let (taken, queue) = run_queue(ops.drop_last());
        match ops.last() {
            QueueOp::Send(x) => (taken, queue.push(x)),
            QueueOp::Take => if queue.len() > 0 {
                (taken.push(queue[0]), queue.drop_first())
            } else {
                (taken, queue)
            },
        }
    }
}

/// Over any run, the worker takes the entries exactly once each and in the order they were
/// sent: what it has taken, followed by what is queued, is what was sent; once the queue is
/// empty, it has taken everything sent.
pub proof fn lemma_run_delivers_in_order<T>(ops: Seq<QueueOp<T>>)
    ensures
        run_queue(ops).0 + run_queue(ops).1 == sent_by(ops),
        run_queue(ops).1.len() == 0 ==> run_queue(ops).0 == sent_by(ops),
    decreases ops.len(),
{
    if ops.len() > 0 {
        lemma_run_delivers_in_order(ops.drop_last());
        let (taken, queue) = run_queue(ops.drop_last());
        match ops.last() {
            QueueOp::Send(x) => {
                assert(taken + queue.push(x) =~= (taken + queue).push(x));
            },
            QueueOp::Take => {
                if queue.len() > 0 {
                    assert(taken.push(queue[0]) + queue.drop_first() =~= taken + queue);
                }
            },
        }
    }
    let (t, q) = run_queue(ops);
    if q.len() == 0 {
        assert(t + q =~= t);
    }
}

} // verus!

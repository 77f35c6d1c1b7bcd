//! A sink of byte chunks that coalesces small writes into buffers of a bounded size.
use crate::logging::logger::chunks::{
    bytes_as_slice, bytes_content, bytes_len, bytes_mut_content, bytes_mut_extend,
    bytes_mut_freeze, bytes_mut_len, bytes_mut_new, bytes_mut_split, chunk_contents,
};
use bytes::{Bytes, BytesMut};
use vstd::prelude::*;
use vstd::calc;

verus! {

broadcast use vstd::seq_lib::group_seq_properties;

/// The buffer size used by [`BufBytesSink::new`].
pub const DEFAULT_LIMIT: usize = 8192;

/// What writing the pending chunk asks of the inner sink next.
#[derive(Debug, Clone, Copy, PartialEq, Eq, Structural)]
pub enum WriteStep {
    /// Nothing: the pending chunk, if any, is now buffered.
    Done,
    /// The buffered bytes must be sent to the inner sink first ([`BufBytesSink::take_buffer`]).
    SendBuffer,
    /// The pending chunk must be sent to the inner sink as it is ([`BufBytesSink::take_pending`]).
    SendPending,
}

/// What writing the pending chunk asks of the caller, which drives the inner sink.
#[derive(Debug)]
pub enum WriteAction {
    /// The pending chunk is written: nothing is pending any more.
    Ready,
    /// Poll the inner sink for readiness and call again with the answer.
    PollInner,
    /// The inner sink is not ready: return `Pending`, nothing has changed.
    Pending,
    /// Send this chunk to the inner sink (which is ready), then call again.
    Send(Bytes),
}

/// A sink that buffers writes of byte chunks into buffers of at most `limit` bytes before
/// passing them to an inner sink; a chunk that does not fit in a buffer goes on alone.
pub struct BufBytesSink<S> {
    buf: BytesMut,
    limit: usize,
    pending_write: Option<Bytes>,
    inner: S,
    /// The chunks handed out for the inner sink, in order.
    handed: Ghost<Seq<Seq<u8>>>,
    /// The bytes of every chunk accepted, in order.
    accepted: Ghost<Seq<u8>>,
}

/// What writing the pending chunk sends to the inner sink, and what stays buffered, when the
/// inner sink accepts every chunk at once.
pub open spec fn write_pending_effect(buf: Seq<u8>, pending: Option<Seq<u8>>, limit: int) -> (
    Seq<Seq<u8>>,
    Seq<u8>,
) {
    match pending {
        None => (Seq::empty(), buf),
        Some(p) => if p.len() <= limit - buf.len() {
            (Seq::empty(), buf + p)
        } else {
            let sent = if buf.len() > 0 { seq![buf] } else { Seq::empty() };
            if p.len() < limit {
                (sent, p)
            } else {
                (sent.push(p), Seq::empty())
            }
        },
    }
}

/// What flushing sends to the inner sink when it accepts every chunk at once: the pending
/// chunk is written as above, then whatever is buffered goes on.
pub open spec fn flush_effect(buf: Seq<u8>, pending: Option<Seq<u8>>, limit: int) -> Seq<Seq<u8>> {
    let (sent, rest) = write_pending_effect(buf, pending, limit);
    if rest.len() > 0 { sent.push(rest) } else { sent }
}

impl<S> BufBytesSink<S> {
    /// The bytes held in the buffer.
    pub closed spec fn buffered(&self) -> Seq<u8> {
        bytes_mut_content(self.buf)
    }

    /// The chunk accepted by `start_send` and not yet written.
    pub closed spec fn pending(&self) -> Option<Seq<u8>> {
        match self.pending_write {
            Some(b) => Some(bytes_content(b)),
            None => None,
        }
    }

    /// The buffer size.
    pub closed spec fn spec_limit(&self) -> int {
        self.limit as int
    }

    /// The inner sink.
    pub closed spec fn spec_inner(&self) -> S {
        self.inner
    }

    /// The chunks handed out for the inner sink so far, in order.
    pub closed spec fn handed_out(&self) -> Seq<Seq<u8>> {
        self.handed@
    }

    /// The bytes of every chunk accepted so far, in order.
    pub closed spec fn accepted(&self) -> Seq<u8> {
        self.accepted@
    }

    /// The buffer never holds more than `limit` bytes, `limit` fits an allocation, and every
    /// byte accepted has been handed out or is held, in order.
    pub closed spec fn wf(&self) -> bool {
        &&& bytes_mut_content(self.buf).len() <= self.limit
        &&& self.limit <= isize::MAX
        &&& self.handed@.flatten() + self.held() == self.accepted@
    }

    /// All bytes accepted and not yet sent on: the buffer followed by the pending chunk.
    pub open spec fn held(&self) -> Seq<u8> {
        match self.pending() {
            Some(p) => self.buffered() + p,
            None => self.buffered(),
        }
    }

    /// A sink with the default buffer size.
    pub fn new(inner: S) -> (r: Self)
        ensures
            r.wf(),
            r.spec_limit() == DEFAULT_LIMIT,
            r.buffered() == Seq::<u8>::empty(),
            r.pending() is None,
            r.spec_inner() == inner,
            r.handed_out() == Seq::<Seq<u8>>::empty(),
            r.accepted() == Seq::<u8>::empty(),
    {
        Self::with_capacity(DEFAULT_LIMIT, inner)
    }

    /// A sink whose buffers hold at most `limit` bytes.
    pub fn with_capacity(limit: usize, inner: S) -> (r: Self)
        requires
            limit <= isize::MAX,
        ensures
            r.wf(),
            r.spec_limit() == limit,
            r.buffered() == Seq::<u8>::empty(),
            r.pending() is None,
            r.spec_inner() == inner,
            r.handed_out() == Seq::<Seq<u8>>::empty(),
            r.accepted() == Seq::<u8>::empty(),
    {
        let r = BufBytesSink {
            buf: bytes_mut_new(),
            limit,
            pending_write: None,
            inner,
            handed: Ghost(Seq::empty()),
            accepted: Ghost(Seq::empty()),
        };
        assert(r.handed@.flatten() + r.held() =~= r.accepted@);
        r
    }

    /// The inner sink.
    pub fn inner(&self) -> (r: &S)
        ensures
            *r == self.spec_inner(),
    {
        &self.inner
    }

    /// The inner sink, for driving it.
    pub fn inner_mut(&mut self) -> (r: &mut S)
        ensures
            *r == old(self).spec_inner(),
            final(self).spec_inner() == *final(r),
            final(self).buffered() == old(self).buffered(),
            final(self).pending() == old(self).pending(),
            final(self).spec_limit() == old(self).spec_limit(),
            final(self).handed_out() == old(self).handed_out(),
            final(self).accepted() == old(self).accepted(),
            old(self).wf() ==> final(self).wf(),
    {
        &mut self.inner
    }

    /// Whether bytes are waiting in the buffer.
    pub fn has_buffered(&self) -> (r: bool)
        ensures
            r == (self.buffered().len() > 0),
    {
        bytes_mut_len(&self.buf) > 0
    }

    /// Accepts a chunk; it is written by the next `poll_ready`, `poll_flush` or `poll_close`.
    pub fn start_send(&mut self, item: Bytes)
        requires
            old(self).pending() is None,
        ensures
            final(self).pending() == Some(bytes_content(item)),
            final(self).buffered() == old(self).buffered(),
            final(self).spec_limit() == old(self).spec_limit(),
            final(self).spec_inner() == old(self).spec_inner(),
            old(self).wf() ==> final(self).wf(),
            final(self).held() == old(self).held() + bytes_content(item),
            final(self).handed_out() == old(self).handed_out(),
            final(self).accepted() == old(self).accepted() + bytes_content(item),
    {
        proof {
            assert(self.handed@.flatten() + self.held() + bytes_content(item) =~= self.handed@.flatten()
                + (self.held() + bytes_content(item)));
        }
        self.accepted = Ghost(self.accepted@ + bytes_content(item));
        self.pending_write = Some(item);
        assert(self.held() =~= old(self).held() + bytes_content(item));
    }

    /// Starts writing the pending chunk: buffers it when it fits beside the buffered bytes,
    /// and otherwise says which chunk the inner sink must take first.
    pub fn start_write_pending(&mut self) -> (step: WriteStep)
        requires
            old(self).wf(),
        ensures
            final(self).wf(),
            final(self).spec_limit() == old(self).spec_limit(),
            final(self).spec_inner() == old(self).spec_inner(),
            final(self).held() == old(self).held(),
            final(self).handed_out() == old(self).handed_out(),
            final(self).accepted() == old(self).accepted(),
            old(self).pending() is None ==> step is Done && *final(self) == *old(self),
            match step {
                WriteStep::Done => {
                    &&& final(self).pending() is None
                    &&& final(self).buffered() == write_pending_effect(
                        old(self).buffered(),
                        old(self).pending(),
                        old(self).spec_limit(),
                    ).1
                    &&& old(self).pending() matches Some(p) ==> p.len() <= old(self).spec_limit()
                        - old(self).buffered().len()
                },
                WriteStep::SendBuffer => {
                    &&& *final(self) == *old(self)
                    &&& old(self).buffered().len() > 0
                    &&& old(self).pending() matches Some(p) && p.len() > old(self).spec_limit()
                        - old(self).buffered().len()
                },
                WriteStep::SendPending => {
                    &&& *final(self) == *old(self)
                    &&& old(self).buffered().len() == 0
                    &&& old(self).pending() matches Some(p) && p.len() > old(self).spec_limit()
                },
            },
    {
        match &self.pending_write {
            None => WriteStep::Done,
            Some(item) => {
                let n = bytes_len(item);
                let used = bytes_mut_len(&self.buf);
                if n <= self.limit - used {
                    let item = self.pending_write.take().unwrap();
                    bytes_mut_extend(&mut self.buf, bytes_as_slice(&item));
                    WriteStep::Done
                } else if used > 0 {
                    WriteStep::SendBuffer
                } else {
                    WriteStep::SendPending
                }
            },
        }
    }

    /// Continues writing the pending chunk once the buffer has been sent: a chunk smaller
    /// than a buffer is buffered, a larger one must go on alone.
    pub fn continue_write_pending(&mut self) -> (step: WriteStep)
        requires
            old(self).wf(),
            old(self).buffered().len() == 0,
            old(self).pending() is Some,
        ensures
            final(self).wf(),
            final(self).spec_limit() == old(self).spec_limit(),
            final(self).spec_inner() == old(self).spec_inner(),
            final(self).held() == old(self).held(),
            final(self).handed_out() == old(self).handed_out(),
            final(self).accepted() == old(self).accepted(),
            step is Done || step is SendPending,
            step is Done <==> old(self).pending().unwrap().len() < old(self).spec_limit(),
            step is Done ==> final(self).pending() is None && final(self).buffered()
                == old(self).pending().unwrap(),
            step is SendPending ==> *final(self) == *old(self),
    {
        let item = self.pending_write.take().unwrap();
        if bytes_len(&item) < self.limit {
            bytes_mut_extend(&mut self.buf, bytes_as_slice(&item));
            WriteStep::Done
        } else {
            self.pending_write = Some(item);
            WriteStep::SendPending
        }
    }

    /// Takes the buffered bytes as one chunk for the inner sink, leaving the buffer empty.
    pub fn take_buffer(&mut self) -> (r: Bytes)
        requires
            old(self).wf(),
        ensures
            final(self).wf(),
            bytes_content(r) == old(self).buffered(),
            final(self).buffered() == Seq::<u8>::empty(),
            final(self).pending() == old(self).pending(),
            final(self).spec_limit() == old(self).spec_limit(),
            final(self).spec_inner() == old(self).spec_inner(),
            bytes_content(r) + final(self).held() == old(self).held(),
            final(self).handed_out() == old(self).handed_out().push(bytes_content(r)),
            final(self).accepted() == old(self).accepted(),
    {
        let b = bytes_mut_split(&mut self.buf);
        let r = bytes_mut_freeze(b);
        proof {
            assert(Seq::<u8>::empty() + bytes_content(r) == bytes_content(r));
            self.handed@.lemma_flatten_push(bytes_content(r));
        }
        self.handed = Ghost(self.handed@.push(bytes_content(r)));
        proof {
            assert(self.held() =~= old(self).held().subrange(bytes_content(r).len() as int, old(self).held().len() as int));
            assert(self.handed@.flatten() + self.held() =~= old(self).handed@.flatten() + old(self).held());
        }
        r
    }

    /// Takes the pending chunk for the inner sink.
    pub fn take_pending(&mut self) -> (r: Bytes)
        requires
            old(self).wf(),
            old(self).pending() is Some,
            old(self).buffered().len() == 0,
        ensures
            final(self).wf(),
            Some(bytes_content(r)) == old(self).pending(),
            final(self).pending() is None,
            final(self).buffered() == old(self).buffered(),
            final(self).spec_limit() == old(self).spec_limit(),
            final(self).spec_inner() == old(self).spec_inner(),
            bytes_content(r) + final(self).held() == old(self).held(),
            final(self).handed_out() == old(self).handed_out().push(bytes_content(r)),
            final(self).accepted() == old(self).accepted(),
    {
        let r = self.pending_write.take().unwrap();
        proof {
            self.handed@.lemma_flatten_push(bytes_content(r));
        }
        self.handed = Ghost(self.handed@.push(bytes_content(r)));
        proof {
            assert(old(self).held() =~= bytes_content(r));
            assert(self.held() =~= Seq::<u8>::empty());
            assert(self.handed@.flatten() + self.held() =~= old(self).handed@.flatten() + old(self).held());
        }
        r
    }

    /// One step of writing the pending chunk, as `Sink::poll_ready` of the buffered sink
    /// does: called first with `None`, and after `PollInner` with whether the inner sink is
    /// ready. A chunk that fits beside the buffered bytes is buffered; otherwise the buffer
    /// is sent first, once the inner sink is ready, and then the chunk is buffered when it is
    /// smaller than a buffer, or else sent on alone once the inner sink is ready again.
    pub fn poll_write_pending(&mut self, inner_ready: Option<bool>) -> (r: WriteAction)
        requires
            old(self).wf(),
        ensures
            final(self).wf(),
            final(self).spec_limit() == old(self).spec_limit(),
            final(self).spec_inner() == old(self).spec_inner(),
            final(self).accepted() == old(self).accepted(),
            ({
                let buf = old(self).buffered();
                let limit = old(self).spec_limit();
                match old(self).pending() {
                    None => r is Ready && *final(self) == *old(self),
                    Some(p) => if p.len() <= limit - buf.len() || (buf.len() == 0 && p.len() < limit) {
                        &&& r is Ready
                        &&& final(self).pending() is None
                        &&& final(self).buffered() == buf + p
                        &&& final(self).handed_out() == old(self).handed_out()
                    } else {
                        match inner_ready {
                            None => r is PollInner && *final(self) == *old(self),
                            Some(false) => r is Pending && *final(self) == *old(self),
                            Some(true) => r matches WriteAction::Send(c) && if buf.len() > 0 {
                                &&& bytes_content(c) == buf
                                &&& final(self).buffered() == Seq::<u8>::empty()
                                &&& final(self).pending() == old(self).pending()
                                &&& final(self).handed_out() == old(self).handed_out().push(buf)
                            } else {
                                &&& bytes_content(c) == p
                                &&& final(self).buffered() == buf
                                &&& final(self).pending() is None
                                &&& final(self).handed_out() == old(self).handed_out().push(p)
                            },
                        }
                    },
                }
            }),
    {
        match self.start_write_pending() {
            WriteStep::Done => {
                proof {
                    if let Some(p) = old(self).pending() {
                        assert(self.buffered() =~= old(self).buffered() + p);
                    }
                }
                WriteAction::Ready
            },
            WriteStep::SendBuffer => match inner_ready {
                None => WriteAction::PollInner,
                Some(false) => WriteAction::Pending,
                Some(true) => WriteAction::Send(self.take_buffer()),
            },
            WriteStep::SendPending => {
                if bytes_len(self.pending_write.as_ref().unwrap()) < self.limit {
                    let step = self.continue_write_pending();
                    assert(self.buffered() =~= old(self).buffered() + old(self).pending().unwrap());
                    WriteAction::Ready
                } else {
                    match inner_ready {
                        None => WriteAction::PollInner,
                        Some(false) => WriteAction::Pending,
                        Some(true) => WriteAction::Send(self.take_pending()),
                    }
                }
            },
        }
    }

    /// Nothing accepted is lost, duplicated or reordered, whatever the inner sink: the chunks
    /// handed out for it, followed by what is still held, are exactly the bytes accepted.
    pub proof fn lemma_accepted_bytes_kept(&self)
        requires
            self.wf(),
        ensures
            self.handed_out().flatten() + self.held() == self.accepted(),
            self.buffered().len() <= self.spec_limit(),
    {
    }

    /// Writing the pending chunk through any inner sink, by the steps above, keeps every
    /// byte: once nothing is pending, the chunks handed out since, followed by the buffer,
    /// are the bytes that were handed out, buffered and pending before, in order, and the
    /// buffer holds at most `limit` bytes.
    pub proof fn lemma_write_pending_done(before: &Self, after: &Self)
        requires
            before.wf(),
            after.wf(),
            after.accepted() == before.accepted(),
            after.pending() is None,
        ensures
            after.handed_out().flatten() + after.buffered() == before.handed_out().flatten()
                + before.buffered() + match before.pending() {
                Some(p) => p,
                None => Seq::<u8>::empty(),
            },
            after.buffered().len() <= after.spec_limit(),
    {
        assert(after.held() == after.buffered());
        assert(before.held() =~= before.buffered() + match before.pending() {
            Some(p) => p,
            None => Seq::<u8>::empty(),
        });
        assert(before.handed_out().flatten() + before.held() =~= before.handed_out().flatten()
            + before.buffered() + match before.pending() {
            Some(p) => p,
            None => Seq::<u8>::empty(),
        });
    }
}

/// A sink over a vector of chunks, which takes every chunk at once: the inner sink of the
/// buffered sink's own checks.
impl BufBytesSink<Vec<Bytes>> {
    /// The contents of the chunks sent on so far.
    pub open spec fn sent(&self) -> Seq<Seq<u8>> {
        chunk_contents(self.spec_inner()@)
    }

    fn send_inner(&mut self, b: Bytes)
        requires
            old(self).wf(),
        ensures
            final(self).wf(),
            final(self).sent() == old(self).sent().push(bytes_content(b)),
            final(self).buffered() == old(self).buffered(),
            final(self).pending() == old(self).pending(),
            final(self).spec_limit() == old(self).spec_limit(),
    {
        self.inner.push(b);
        proof {
            assert(final(self).sent() =~= old(self).sent().push(bytes_content(b)));
        }
    }

    /// Writes the pending chunk, if any, as `Sink::poll_ready` does; the inner sink is always
    /// ready, so this completes at once.
    pub fn poll_ready(&mut self)
        requires
            old(self).wf(),
        ensures
            final(self).wf(),
            final(self).spec_limit() == old(self).spec_limit(),
            final(self).pending() is None,
            ({
                let (sent, rest) = write_pending_effect(
                    old(self).buffered(),
                    old(self).pending(),
                    old(self).spec_limit(),
                );
                &&& final(self).sent() == old(self).sent() + sent
                &&& final(self).buffered() == rest
            }),
    {
        let ghost buf0 = self.buffered();
        let ghost pending0 = self.pending();
        let ghost sent0 = self.sent();
        match self.start_write_pending() {
            WriteStep::Done => {
                assert(self.sent() =~= sent0 + Seq::<Seq<u8>>::empty());
            },
            WriteStep::SendBuffer => {
                let b = self.take_buffer();
                self.send_inner(b);
                match self.continue_write_pending() {
                    WriteStep::Done => {
                        assert(self.sent() =~= sent0 + seq![buf0]);
                    },
                    _ => {
                        let p = self.take_pending();
                        self.send_inner(p);
                        assert(self.sent() =~= sent0 + seq![buf0].push(pending0.unwrap()));
                    },
                }
            },
            WriteStep::SendPending => {
                let p = self.take_pending();
                self.send_inner(p);
                assert(self.sent() =~= sent0 + Seq::<Seq<u8>>::empty().push(pending0.unwrap()));
            },
        }
    }

    /// Writes a chunk as `SinkExt::feed` does: waits until ready, then accepts it.
    pub fn feed(&mut self, item: Bytes)
        requires
            old(self).wf(),
        ensures
            final(self).wf(),
            final(self).spec_limit() == old(self).spec_limit(),
            final(self).pending() == Some(bytes_content(item)),
            ({
                let (sent, rest) = write_pending_effect(
                    old(self).buffered(),
                    old(self).pending(),
                    old(self).spec_limit(),
                );
                &&& final(self).sent() == old(self).sent() + sent
                &&& final(self).buffered() == rest
            }),
    {
        self.poll_ready();
        self.start_send(item);
    }

    /// Sends on everything held, as `Sink::poll_flush` does.
    pub fn poll_flush(&mut self)
        requires
            old(self).wf(),
        ensures
            final(self).wf(),
            final(self).spec_limit() == old(self).spec_limit(),
            final(self).pending() is None,
            final(self).buffered() == Seq::<u8>::empty(),
            final(self).sent() == old(self).sent() + flush_effect(
                old(self).buffered(),
                old(self).pending(),
                old(self).spec_limit(),
            ),
    {
        let ghost sent0 = self.sent();
        self.poll_ready();
        let ghost sent1 = self.sent();
        if self.has_buffered() {
            let b = self.take_buffer();
            self.send_inner(b);
            assert(self.sent() =~= sent0 + (sent1.subrange(sent0.len() as int, sent1.len() as int)).push(bytes_content(b)));
        } else {
            assert(self.buffered() =~= Seq::<u8>::empty());
        }
    }

    /// Sends on everything held, as `Sink::poll_close` does.
    pub fn poll_close(&mut self)
        requires
            old(self).wf(),
        ensures
            final(self).wf(),
            final(self).spec_limit() == old(self).spec_limit(),
            final(self).pending() is None,
            final(self).buffered() == Seq::<u8>::empty(),
            final(self).sent() == old(self).sent() + flush_effect(
                old(self).buffered(),
                old(self).pending(),
                old(self).spec_limit(),
            ),
    {
        self.poll_flush();
    }
}

/// Writing the pending chunk keeps every byte, in order, and never overfills the buffer:
/// the chunks sent on, followed by what stays buffered, are exactly the bytes held before.
/// Every chunk sent on is either a whole buffer of at most `limit` bytes or a single
/// accepted chunk of at least `limit` bytes.
pub proof fn lemma_write_pending_keeps_bytes(buf: Seq<u8>, pending: Option<Seq<u8>>, limit: int)
    requires
        buf.len() <= limit,
    ensures
        ({
            let (sent, rest) = write_pending_effect(buf, pending, limit);
            &&& sent.flatten() + rest == match pending {
                Some(p) => buf + p,
                None => buf,
            }
            &&& rest.len() <= limit
            &&& forall|i: int|
                0 <= i < sent.len() ==> (#[trigger] sent[i]).len() <= limit || (pending
                    matches Some(p) && sent[i] == p && p.len() >= limit)
        }),
{
    let (sent, rest) = write_pending_effect(buf, pending, limit);
    match pending {
        None => {
            assert(sent.flatten() =~= Seq::<u8>::empty());
        },
        Some(p) => {
            if p.len() <= limit - buf.len() {
                assert(sent.flatten() =~= Seq::<u8>::empty());
            } else {
                let first: Seq<Seq<u8>> = if buf.len() > 0 { seq![buf] } else { Seq::empty() };
                assert(first.flatten() =~= buf) by {
                    if buf.len() > 0 {
                        assert(first.drop_first() =~= Seq::<Seq<u8>>::empty());
                        assert(first.flatten() =~= buf + Seq::<Seq<u8>>::empty().flatten());
                    } else {
                        assert(first =~= Seq::<Seq<u8>>::empty());
                    }
                }
                if p.len() >= limit {
                    first.lemma_flatten_push(p);
                }
            }
        },
    }
}

/// Flushing keeps every byte, in order: the chunks sent on are exactly the bytes held.
pub proof fn lemma_flush_keeps_bytes(buf: Seq<u8>, pending: Option<Seq<u8>>, limit: int)
    requires
        buf.len() <= limit,
    ensures
        flush_effect(buf, pending, limit).flatten() == match pending {
            Some(p) => buf + p,
            None => buf,
        },
{
    lemma_write_pending_keeps_bytes(buf, pending, limit);
    let (sent, rest) = write_pending_effect(buf, pending, limit);
    if rest.len() > 0 {
        sent.lemma_flatten_push(rest);
    } else {
        assert(sent.flatten() + rest =~= sent.flatten());
    }
}

/// The bytes of an optional chunk.
pub open spec fn opt_bytes(p: Option<Seq<u8>>) -> Seq<u8> {
    match p {
        Some(x) => x,
        None => Seq::empty(),
    }
}

/// What feeding `chunks` one after another does, from `buf` buffered and `pending` not yet
/// written, when the inner sink accepts every chunk at once: the chunks sent on, the bytes
/// left buffered and the chunk left pending.
pub open spec fn feed_effect(buf: Seq<u8>, pending: Option<Seq<u8>>, limit: int, chunks: Seq<Seq<u8>>) -> (
    Seq<Seq<u8>>,
    Seq<u8>,
    Option<Seq<u8>>,
)
    decreases chunks.len(),
{
    if chunks.len() == 0 {
        (Seq::empty(), buf, pending)
    } else {
        let (sent, rest) = write_pending_effect(buf, pending, limit);
        let (more, left, last) = feed_effect(rest, Some(chunks[0]), limit, chunks.drop_first());
        (sent + more, left, last)
    }
}

/// Whatever is fed comes out whole and in order: after feeding any chunks and flushing,
/// the inner sink has received exactly the bytes held before followed by the chunks' bytes.
pub proof fn lemma_feed_then_flush_delivers_all(
    buf: Seq<u8>,
    pending: Option<Seq<u8>>,
    limit: int,
    chunks: Seq<Seq<u8>>,
)
    requires
        buf.len() <= limit,
    ensures
        ({
            let (sent, left, last) = feed_effect(buf, pending, limit, chunks);
            &&& left.len() <= limit
            &&& sent.flatten() + left + opt_bytes(last) == buf + opt_bytes(pending) + chunks.flatten()
            &&& (sent + flush_effect(left, last, limit)).flatten() == buf + opt_bytes(pending)
                + chunks.flatten()
        }),
    decreases chunks.len(),
{
    let (sent, left, last) = feed_effect(buf, pending, limit, chunks);
    if chunks.len() == 0 {
        assert(chunks.flatten() =~= Seq::<u8>::empty());
        assert(sent.flatten() =~= Seq::<u8>::empty());
        assert(sent.flatten() + left + opt_bytes(last) =~= buf + opt_bytes(pending) + chunks.flatten());
    } else {
        let (s0, rest) = write_pending_effect(buf, pending, limit);
        lemma_write_pending_keeps_bytes(buf, pending, limit);
        assert(s0.flatten() + rest =~= buf + opt_bytes(pending));
        lemma_feed_then_flush_delivers_all(rest, Some(chunks[0]), limit, chunks.drop_first());
        let (more, l2, p2) = feed_effect(rest, Some(chunks[0]), limit, chunks.drop_first());
        assert(sent == s0 + more && left == l2 && last == p2);
        vstd::seq_lib::lemma_flatten_concat(s0, more);
        assert(chunks.flatten() =~= chunks[0] + chunks.drop_first().flatten());
        assert(opt_bytes(Some(chunks[0])) == chunks[0]);
        let tail = chunks.drop_first().flatten();
        assert(more.flatten() + l2 + opt_bytes(p2) == rest + chunks[0] + tail);
        calc! {
            (==)
            sent.flatten() + left + opt_bytes(last); {}
            s0.flatten() + more.flatten() + l2 + opt_bytes(p2); {
                assert(s0.flatten() + more.flatten() + l2 + opt_bytes(p2) =~= s0.flatten() + (more.flatten() + l2 + opt_bytes(p2)));
            }
            s0.flatten() + (rest + chunks[0] + tail); {
                assert(s0.flatten() + (rest + chunks[0] + tail) =~= (s0.flatten() + rest) + (chunks[0] + tail));
            }
            (buf + opt_bytes(pending)) + (chunks[0] + tail); {
                assert((buf + opt_bytes(pending)) + (chunks[0] + tail) =~= buf + opt_bytes(pending) + chunks.flatten());
            }
            buf + opt_bytes(pending) + chunks.flatten();
        }
    }
    lemma_flush_keeps_bytes(left, last, limit);
    vstd::seq_lib::lemma_flatten_concat(sent, flush_effect(left, last, limit));
    assert(flush_effect(left, last, limit).flatten() =~= left + opt_bytes(last));
    assert((sent + flush_effect(left, last, limit)).flatten() =~= buf + opt_bytes(pending) + chunks.flatten());
}

} // verus!

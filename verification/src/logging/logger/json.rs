//! Framing serialized log entries as lines.
use crate::logging::logger::chunks::{
    bytes_mut_content, bytes_mut_extend, bytes_mut_freeze, bytes_mut_new,
    bytes_mut_split, bytes_content,
};
use bytes::{Bytes, BytesMut};
use vstd::prelude::*;

verus! {

/// Turns each serialized entry into one line, a chunk of its own, for the inner sink.
pub struct JsonAppender<S> {
    inner: S,
    buf: BytesMut,
}

impl<S> JsonAppender<S> {
    pub closed spec fn spec_inner(&self) -> S {
        self.inner
    }

    /// The bytes framed but not yet handed out: none between entries.
    pub closed spec fn spec_pending(&self) -> Seq<u8> {
        bytes_mut_content(self.buf)
    }

    /// An appender over `inner`.
    pub fn new(inner: S) -> (r: Self)
        ensures
            r.spec_inner() == inner,
            r.spec_pending() == Seq::<u8>::empty(),
    {
        JsonAppender { inner, buf: bytes_mut_new() }
    }

    /// The sink that receives the lines.
    pub fn inner(&self) -> (r: &S)
        ensures
            *r == self.spec_inner(),
    {
        &self.inner
    }

    /// The sink that receives the lines.
    pub fn inner_mut(&mut self) -> (r: &mut S)
        ensures
            *r == old(self).spec_inner(),
            final(self).spec_inner() == *final(r),
            final(self).spec_pending() == old(self).spec_pending(),
    {
        &mut self.inner
    }

    /// The line of one serialized entry: its bytes followed by a newline.
    pub fn frame(&mut self, json: &[u8]) -> (r: Bytes)
        requires
            old(self).spec_pending().len() + json@.len() + 1 <= isize::MAX,
        ensures
            bytes_content(r) == old(self).spec_pending() + json@ + seq![10u8],
            final(self).spec_pending() == Seq::<u8>::empty(),
            final(self).spec_inner() == old(self).spec_inner(),
    {
        bytes_mut_extend(&mut self.buf, json);
        let newline: [u8; 1] = [10u8];
        assert(newline@ =~= seq![10u8]);
        bytes_mut_extend(&mut self.buf, newline.as_slice());
        let line = bytes_mut_split(&mut self.buf);
        bytes_mut_freeze(line)
    }
}

} // verus!

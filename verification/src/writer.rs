//! Buffered-writer shell around an asynchronous byte sink.
//!
//! Writes are staged in a [`BytesHandler`] until a flush drains the whole
//! buffered content and forwards it to the underlying sink. The suspension
//! on the sink itself is the caller's business; this shell holds the
//! buffering rules the sink adapter depends on.

use crate::bytes::{BufferError, BytesHandler, BLOCK};
use vstd::prelude::*;

verus! {

/// An asynchronous byte sink paired with the buffer that batches its writes.
pub struct BufWriter<T> {
    inner: T,
    buffer: BytesHandler,
}

impl<T> BufWriter<T> {
    /// The underlying sink.
    pub closed spec fn sink(&self) -> T {
        self.inner
    }

    /// The bytes staged for the next flush.
    pub closed spec fn buffered(&self) -> Seq<u8> {
        self.buffer@
    }

    /// The staging buffer's capacity.
    pub closed spec fn buffer_cap(&self) -> int {
        self.buffer.spec_cap()
    }

    /// The staging buffer keeps its invariant.
    pub closed spec fn wf(&self) -> bool {
        self.buffer.wf()
    }

    /// Wrap a sink with an empty staging buffer of one block.
    pub fn new(inner: T) -> (r: BufWriter<T>)
        ensures
            r.sink() == inner,
            r.buffered() == Seq::<u8>::empty(),
            r.buffer_cap() == BLOCK,
            r.wf(),
    {
        BufWriter { inner, buffer: BytesHandler::new() }
    }

    /// Stage bytes for a later flush by appending them to the buffer.
    pub fn write_buffered(&mut self, bytes: &[u8]) -> (r: Result<(), BufferError>)
        requires
            old(self).wf(),
        ensures
            final(self).wf(),
            final(self).sink() == old(self).sink(),
            r is Err <==> old(self).buffered().len() + bytes@.len() > usize::MAX - (BLOCK - 1),
            match r {
                Ok(()) => final(self).buffered() == old(self).buffered() + bytes@,
                Err(e) => e == BufferError::AllocationError && final(self).buffered() == old(
                    self,
                ).buffered() && final(self).buffer_cap() == old(self).buffer_cap(),
            },
    {
        self.buffer.extend(bytes)
    }

    /// Hand the entire buffered content out for a flush, leaving the buffer
    /// empty; nothing comes back when nothing was staged. The caller forwards
    /// the returned bytes to the sink — either they are fully handed over or
    /// they are still in the returned buffer, never partially both.
    pub fn take_buffered(&mut self) -> (r: Option<BytesHandler>)
        requires
            old(self).wf(),
        ensures
            final(self).wf(),
            final(self).sink() == old(self).sink(),
            r is None <==> old(self).buffered().len() == 0,
            r is None ==> final(self).buffered() == old(self).buffered(),
            match r {
                Some(buffer) => {
                    &&& buffer@ == old(self).buffered()
                    &&& buffer.wf()
                    &&& final(self).buffered() == Seq::<u8>::empty()
                },
                None => true,
            },
    {
        self.buffer.drain_all()
    }
}

} // verus!

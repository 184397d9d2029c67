//! A growable, contiguous byte buffer with block-aligned capacity.
//!
//! The buffer accumulates bytes through [`BytesHandler::extend`], hands
//! contiguous sub-ranges out through [`BytesHandler::drain`] while compacting
//! what stays behind, and offers bounds-checked indexed access. Its capacity
//! is always a multiple of [`BLOCK`] and at least the length; every operation
//! either succeeds completely or leaves the buffer exactly as it was.

use vstd::arithmetic::div_mod::{
    lemma_fundamental_div_mod, lemma_mod_division_less_than_divisor, lemma_mod_multiples_basic,
    lemma_small_mod, lemma_sub_mod_noop,
};
use vstd::prelude::*;
use vstd::slice::{slice_index_get, slice_subrange};

verus! {

/// Granularity of every allocation: capacities are rounded up to a multiple
/// of this many bytes.
pub const BLOCK: usize = 512;

/// The smallest multiple of [`BLOCK`] that is at least `n` (for `n >= 0`).
pub open spec fn block_round_up(n: int) -> int {
    ((n + BLOCK as int - 1) / (BLOCK as int)) * (BLOCK as int)
}

/// Rounding up to a block multiple lands on a multiple of [`BLOCK`] that is
/// at least `n` and less than one whole block above it; a value already on a
/// block boundary stays put.
pub proof fn lemma_block_round_up(n: int)
    requires
        0 <= n,
    ensures
        block_round_up(n) % (BLOCK as int) == 0,
        n <= block_round_up(n) < n + BLOCK,
        n % (BLOCK as int) == 0 ==> block_round_up(n) == n,
{
    let b = BLOCK as int;
    let q = (n + b - 1) / b;
    let r = (n + b - 1) % b;
    lemma_fundamental_div_mod(n + b - 1, b);
    lemma_mod_division_less_than_divisor(n + b - 1, b);
    lemma_mod_multiples_basic(q, b);
    assert(block_round_up(n) == q * b);
    if n % b == 0 {
        let d = block_round_up(n) - n;
        lemma_sub_mod_noop(q * b, n, b);
        lemma_small_mod(d as nat, b as nat);
    }
}

/// A capacity that fits in a machine word and sits on a block boundary leaves
/// room for one more block of rounding below `usize::MAX`.
pub proof fn lemma_block_multiple_fits(c: int)
    requires
        0 <= c <= usize::MAX,
        c % (BLOCK as int) == 0,
    ensures
        c <= usize::MAX - (BLOCK - 1),
{
    let b = BLOCK as int;
    let m = usize::MAX as int + 1;
    assert(m % b == 0);
    if c > m - b {
        let d = m - c;
        lemma_sub_mod_noop(m, c, b);
        lemma_small_mod(d as nat, b as nat);
    }
}

/// Smallest multiple of [`BLOCK`] at least `n`, computed without overflow.
fn round_up_to_block(n: usize) -> (r: usize)
    requires
        n <= usize::MAX - (BLOCK - 1),
    ensures
        r == block_round_up(n as int),
{
    proof {
        lemma_block_round_up(n as int);
    }
    ((n + (BLOCK - 1)) / BLOCK) * BLOCK
}

/// The ways a buffer operation can fail. Every failure is local and
/// recoverable: the buffer is left exactly as it was before the call.
#[derive(Clone, Copy, Debug, PartialEq, Eq, Structural)]
pub enum BufferError {
    /// The requested capacity cannot be obtained.
    AllocationError,
    /// A read or write addressed an offset at or beyond the current length.
    IndexOutOfBounds,
}

/// The bytes a drain of `[start, end)` extracts from `content`: the range is
/// clamped to the content's length.
pub open spec fn drained_part(content: Seq<u8>, start: int, end: int) -> Seq<u8> {
    content.subrange(start, if end <= content.len() { end } else { content.len() as int })
}

/// The bytes a drain of `[start, end)` leaves behind in `content`: the prefix
/// before `start`, then the suffix from the clamped `end`, compacted together.
pub open spec fn retained_part(content: Seq<u8>, start: int, end: int) -> Seq<u8> {
    let e = if end <= content.len() { end } else { content.len() as int };
    content.subrange(0, start) + content.subrange(e, content.len() as int)
}

/// Capacity after an append brings a buffer of capacity `cap` to `needed`
/// total bytes: unchanged while it still fits, else the smallest block
/// multiple that accommodates `needed`.
pub open spec fn grown_cap(cap: int, needed: int) -> int {
    if needed <= cap {
        cap
    } else {
        block_round_up(needed)
    }
}

/// A growable, contiguous byte buffer. The logical length is the number of
/// valid bytes; the capacity is the allocated byte count, always a multiple
/// of [`BLOCK`] and at least the length.
pub struct BytesHandler {
    data: Vec<u8>,
    capacity: usize,
}

impl View for BytesHandler {
    type V = Seq<u8>;

    closed spec fn view(&self) -> Seq<u8> {
        self.data@
    }
}

impl BytesHandler {
    /// Allocated byte count, as a mathematical integer.
    pub closed spec fn spec_cap(&self) -> int {
        self.capacity as int
    }

    /// The buffer's invariant: the capacity is a multiple of [`BLOCK`] and
    /// never smaller than the length.
    pub open spec fn wf(&self) -> bool {
        &&& self.spec_cap() % (BLOCK as int) == 0
        &&& self@.len() <= self.spec_cap()
    }

    /// An empty buffer with one block of capacity.
    pub fn new() -> (r: BytesHandler)
        ensures
            r@ == Seq::<u8>::empty(),
            r.spec_cap() == BLOCK,
            r.wf(),
    {
        match Self::with_capacity(BLOCK) {
            Ok(buffer) => buffer,
            Err(_) => unreached(),
        }
    }

    /// An empty buffer whose capacity is the smallest multiple of [`BLOCK`]
    /// at least `n`. Fails when the request is zero or too large for the
    /// rounding to fit in a machine word.
    pub fn with_capacity(n: usize) -> (r: Result<BytesHandler, BufferError>)
        ensures
            r is Ok <==> 1 <= n <= usize::MAX - (BLOCK - 1),
            match r {
                Ok(buffer) => {
                    &&& buffer@ == Seq::<u8>::empty()
                    &&& buffer.spec_cap() == block_round_up(n as int)
                    &&& buffer.wf()
                },
                Err(e) => e == BufferError::AllocationError,
            },
    {
        if n == 0 || n > usize::MAX - (BLOCK - 1) {
            return Err(BufferError::AllocationError);
        }
        let cap = round_up_to_block(n);
        proof {
            lemma_block_round_up(n as int);
        }
        Ok(BytesHandler { data: Vec::with_capacity(cap), capacity: cap })
    }

    /// Current capacity in bytes.
    pub fn cap(&self) -> (r: usize)
        ensures
            r == self.spec_cap(),
    {
        self.capacity
    }

    /// All valid bytes, as a borrowed read-only view.
    pub fn as_slice(&self) -> (r: &[u8])
        ensures
            r@ == self@,
    {
        self.data.as_slice()
    }

    /// Number of valid bytes.
    pub fn len(&self) -> (r: usize)
        ensures
            r == self@.len(),
    {
        self.data.len()
    }

    /// Whether the buffer holds no valid bytes.
    pub fn is_empty(&self) -> (r: bool)
        ensures
            r <==> self@.len() == 0,
    {
        self.data.len() == 0
    }

    /// Reallocate the backing region so that it accommodates `n` bytes; the
    /// valid bytes and the recorded capacity are untouched.
    fn realloc(&mut self, n: usize)
        ensures
            final(self)@ == old(self)@,
            final(self).spec_cap() == old(self).spec_cap(),
    {
        let len = self.data.len();
        if n > len {
            self.data.reserve(n - len);
        }
    }

    /// Append `slice` at the end of the buffer. Grows the capacity to the
    /// smallest multiple of [`BLOCK`] accommodating the new length when the
    /// bytes do not fit; existing bytes keep their offsets. Fails, leaving
    /// the buffer untouched, only when the new length would not leave room
    /// for block rounding within a machine word.
    pub fn extend(&mut self, slice: &[u8]) -> (r: Result<(), BufferError>)
        requires
            old(self).wf(),
        ensures
            final(self).wf(),
            r is Err <==> old(self)@.len() + slice@.len() > usize::MAX - (BLOCK - 1),
            match r {
                Ok(()) => {
                    &&& final(self)@ == old(self)@ + slice@
                    &&& final(self).spec_cap() == grown_cap(
                        old(self).spec_cap(),
                        old(self)@.len() + slice@.len() as int,
                    )
                },
                Err(e) => {
                    &&& e == BufferError::AllocationError
                    &&& final(self)@ == old(self)@
                    &&& final(self).spec_cap() == old(self).spec_cap()
                },
            },
    {
        let len = self.data.len();
        if slice.len() > usize::MAX - (BLOCK - 1) || len > usize::MAX - (BLOCK - 1) - slice.len() {
            return Err(BufferError::AllocationError);
        }
        let needed = len + slice.len();
        if needed > self.capacity {
            let new_cap = round_up_to_block(needed);
            proof {
                lemma_block_round_up(needed as int);
            }
            self.realloc(new_cap);
            self.capacity = new_cap;
        }
        let ghost cap_after = self.capacity;
        let mut i: usize = 0;
        while i < slice.len()
            invariant
                i <= slice@.len(),
                self.data@ == old(self)@ + slice@.subrange(0, i as int),
                self.capacity == cap_after,
            decreases slice@.len() - i,
        {
            self.data.push(*slice_index_get(slice, i));
            proof {
                assert(self.data@ =~= old(self)@ + slice@.subrange(0, i + 1));
            }
            i += 1;
        }
        proof {
            assert(slice@.subrange(0, slice@.len() as int) =~= slice@);
        }
        Ok(())
    }

    /// Extract the bytes in `[start, end)` (the end clamped to the length)
    /// into a new, independently owned buffer, and compact this one: bytes
    /// before `start` keep their offsets, bytes from the clamped end onward
    /// shift left to close the gap, and the capacity is recomputed as the
    /// smallest multiple of [`BLOCK`] accommodating the new length. A range
    /// that selects nothing — `start` at or past the length, or an empty
    /// range — is not an error: the buffer is untouched and nothing is
    /// returned.
    pub fn drain(&mut self, start: usize, end: usize) -> (r: Option<BytesHandler>)
        requires
            old(self).wf(),
        ensures
            final(self).wf(),
            r is None <==> (start >= old(self)@.len() || end <= start),
            r is None ==> final(self)@ == old(self)@ && final(self).spec_cap() == old(
                self,
            ).spec_cap(),
            match r {
                Some(buffer) => {
                    &&& buffer@ == drained_part(old(self)@, start as int, end as int)
                    &&& buffer.spec_cap() == block_round_up(buffer@.len() as int)
                    &&& buffer.wf()
                    &&& final(self)@ == retained_part(old(self)@, start as int, end as int)
                    &&& final(self).spec_cap() == block_round_up(final(self)@.len() as int)
                },
                None => true,
            },
    {
        let len = self.data.len();
        if start >= len || end <= start {
            return None;
        }
        let e = if end < len {
            end
        } else {
            len
        };
        proof {
            lemma_block_multiple_fits(old(self).spec_cap());
        }
        let removed = e - start;
        let remaining = len - removed;
        let out_cap = round_up_to_block(removed);
        let new_cap = round_up_to_block(remaining);
        proof {
            lemma_block_round_up(removed as int);
            lemma_block_round_up(remaining as int);
        }
        let mut out: Vec<u8> = Vec::with_capacity(out_cap);
        copy_range(self.data.as_slice(), start, e, &mut out);
        let mut rest: Vec<u8> = Vec::with_capacity(new_cap);
        copy_range(self.data.as_slice(), 0, start, &mut rest);
        copy_range(self.data.as_slice(), e, len, &mut rest);
        self.data = rest;
        self.capacity = new_cap;
        Some(BytesHandler { data: out, capacity: out_cap })
    }

    /// Drain everything from `start` to the end of the buffer.
    pub fn drain_from(&mut self, start: usize) -> (r: Option<BytesHandler>)
        requires
            old(self).wf(),
        ensures
            final(self).wf(),
            r is None <==> start >= old(self)@.len(),
            r is None ==> final(self)@ == old(self)@ && final(self).spec_cap() == old(
                self,
            ).spec_cap(),
            match r {
                Some(buffer) => {
                    &&& buffer@ == old(self)@.subrange(start as int, old(self)@.len() as int)
                    &&& buffer.spec_cap() == block_round_up(buffer@.len() as int)
                    &&& buffer.wf()
                    &&& final(self)@ == old(self)@.subrange(0, start as int)
                    &&& final(self).spec_cap() == block_round_up(final(self)@.len() as int)
                },
                None => true,
            },
    {
        let len = self.data.len();
        let r = self.drain(start, len);
        proof {
            if start < old(self)@.len() {
                assert(retained_part(old(self)@, start as int, len as int) =~= old(
                    self,
                )@.subrange(0, start as int));
            }
        }
        r
    }

    /// Drain the first `end` bytes (clamped to the length).
    pub fn drain_to(&mut self, end: usize) -> (r: Option<BytesHandler>)
        requires
            old(self).wf(),
        ensures
            final(self).wf(),
            r is None <==> (old(self)@.len() == 0 || end == 0),
            r is None ==> final(self)@ == old(self)@ && final(self).spec_cap() == old(
                self,
            ).spec_cap(),
            match r {
                Some(buffer) => {
                    &&& buffer@ == drained_part(old(self)@, 0, end as int)
                    &&& buffer.spec_cap() == block_round_up(buffer@.len() as int)
                    &&& buffer.wf()
                    &&& final(self)@ == retained_part(old(self)@, 0, end as int)
                    &&& final(self).spec_cap() == block_round_up(final(self)@.len() as int)
                },
                None => true,
            },
    {
        self.drain(0, end)
    }

    /// Drain the whole content, leaving the buffer empty.
    pub fn drain_all(&mut self) -> (r: Option<BytesHandler>)
        requires
            old(self).wf(),
        ensures
            final(self).wf(),
            r is None <==> old(self)@.len() == 0,
            r is None ==> final(self)@ == old(self)@ && final(self).spec_cap() == old(
                self,
            ).spec_cap(),
            match r {
                Some(buffer) => {
                    &&& buffer@ == old(self)@
                    &&& buffer.spec_cap() == block_round_up(buffer@.len() as int)
                    &&& buffer.wf()
                    &&& final(self)@ == Seq::<u8>::empty()
                    &&& final(self).spec_cap() == 0
                },
                None => true,
            },
    {
        let len = self.data.len();
        let r = self.drain(0, len);
        proof {
            if old(self)@.len() > 0 {
                assert(drained_part(old(self)@, 0, len as int) =~= old(self)@);
                assert(retained_part(old(self)@, 0, len as int) =~= Seq::<u8>::empty());
                lemma_block_round_up(0);
            }
        }
        r
    }

    /// The byte at `offset`. Fails, instead of halting, when `offset` is at
    /// or beyond the current length.
    pub fn get(&self, offset: usize) -> (r: Result<u8, BufferError>)
        ensures
            r is Ok <==> offset < self@.len(),
            match r {
                Ok(byte) => byte == self@[offset as int],
                Err(e) => e == BufferError::IndexOutOfBounds,
            },
    {
        if offset >= self.data.len() {
            return Err(BufferError::IndexOutOfBounds);
        }
        Ok(*slice_index_get(self.data.as_slice(), offset))
    }

    /// Overwrite the byte at `offset`. Fails, leaving the buffer untouched,
    /// when `offset` is at or beyond the current length.
    pub fn set(&mut self, offset: usize, value: u8) -> (r: Result<(), BufferError>)
        requires
            old(self).wf(),
        ensures
            final(self).wf(),
            r is Ok <==> offset < old(self)@.len(),
            final(self).spec_cap() == old(self).spec_cap(),
            match r {
                Ok(()) => final(self)@ == old(self)@.update(offset as int, value),
                Err(e) => e == BufferError::IndexOutOfBounds && final(self)@ == old(self)@,
            },
    {
        if offset >= self.data.len() {
            return Err(BufferError::IndexOutOfBounds);
        }
        self.data.set(offset, value);
        Ok(())
    }

    /// The bytes from `start` to the end. Fails when `start` is at or beyond
    /// the current length.
    pub fn range_from(&self, start: usize) -> (r: Result<&[u8], BufferError>)
        ensures
            r is Ok <==> start < self@.len(),
            match r {
                Ok(view) => view@ == self@.subrange(start as int, self@.len() as int),
                Err(e) => e == BufferError::IndexOutOfBounds,
            },
    {
        if start >= self.data.len() {
            return Err(BufferError::IndexOutOfBounds);
        }
        Ok(slice_subrange(self.data.as_slice(), start, self.data.len()))
    }

    /// The first `end` bytes, the count clamped to the current length.
    pub fn range_to(&self, end: usize) -> (r: &[u8])
        ensures
            r@ == self@.subrange(
                0,
                if end <= self@.len() {
                    end as int
                } else {
                    self@.len() as int
                },
            ),
    {
        let e = if end < self.data.len() {
            end
        } else {
            self.data.len()
        };
        slice_subrange(self.data.as_slice(), 0, e)
    }

    /// The first `end + 1` bytes, the count clamped to the current length.
    pub fn range_to_inclusive(&self, end: usize) -> (r: &[u8])
        ensures
            r@ == self@.subrange(
                0,
                if end + 1 <= self@.len() {
                    end + 1
                } else {
                    self@.len() as int
                },
            ),
    {
        let e = if end < self.data.len() {
            end + 1
        } else {
            self.data.len()
        };
        slice_subrange(self.data.as_slice(), 0, e)
    }

    /// All valid bytes, as the full-range view.
    pub fn range_full(&self) -> (r: &[u8])
        ensures
            r@ == self@,
    {
        self.as_slice()
    }
}

impl Default for BytesHandler {
    /// Same as [`BytesHandler::new`]: one block of capacity, no valid bytes.
    fn default() -> (r: BytesHandler)
        ensures
            r@ == Seq::<u8>::empty(),
            r.spec_cap() == BLOCK,
            r.wf(),
    {
        BytesHandler::new()
    }
}

/// Append `src[from..to]` to `dst`.
fn copy_range(src: &[u8], from: usize, to: usize, dst: &mut Vec<u8>)
    requires
        from <= to <= src@.len(),
    ensures
        final(dst)@ == old(dst)@ + src@.subrange(from as int, to as int),
{
    let mut i: usize = from;
    while i < to
        invariant
            from <= i <= to <= src@.len(),
            dst@ == old(dst)@ + src@.subrange(from as int, i as int),
        decreases to - i,
    {
        dst.push(*slice_index_get(src, i));
        proof {
            assert(dst@ =~= old(dst)@ + src@.subrange(from as int, i + 1));
        }
        i += 1;
    }
}

/// Content of a buffer holding `init` after each chunk of `chunks` is
/// appended to it, in order.
pub open spec fn content_after_appends(init: Seq<u8>, chunks: Seq<Seq<u8>>) -> Seq<u8>
    decreases chunks.len(),
{
    if chunks.len() == 0 {
        init
    } else {
        content_after_appends(init, chunks.drop_last()) + chunks.last()
    }
}

/// Concatenation of `chunks` in order.
pub open spec fn concat_chunks(chunks: Seq<Seq<u8>>) -> Seq<u8>
    decreases chunks.len(),
{
    if chunks.len() == 0 {
        Seq::empty()
    } else {
        concat_chunks(chunks.drop_last()) + chunks.last()
    }
}

/// Law: appending any sequence of byte chunks, in order, to a fresh (empty)
/// buffer leaves exactly their concatenation as the buffer's full content.
/// Each [`BytesHandler::extend`] adds its chunk at the end, so the content
/// after all the appends is [`content_after_appends`] of the empty sequence.
pub proof fn lemma_appends_concatenate(chunks: Seq<Seq<u8>>)
    ensures
        content_after_appends(Seq::<u8>::empty(), chunks) == concat_chunks(chunks),
    decreases chunks.len(),
{
    if chunks.len() == 0 {
        assert(content_after_appends(Seq::<u8>::empty(), chunks) =~= concat_chunks(chunks));
    } else {
        lemma_appends_concatenate(chunks.drop_last());
    }
}

/// Law: a well-formed buffer's capacity is a multiple of [`BLOCK`] and at
/// least its length; every operation of [`BytesHandler`] keeps `wf`, so this
/// holds after every operation.
pub proof fn lemma_capacity_block_aligned(buffer: &BytesHandler)
    requires
        buffer.wf(),
    ensures
        buffer.spec_cap() % (BLOCK as int) == 0,
        buffer@.len() <= buffer.spec_cap(),
{
}

/// Law: draining `[start, end)` and then appending as many bytes as were
/// drained restores the original total length.
pub proof fn lemma_drain_then_extend_restores_length(
    content: Seq<u8>,
    start: int,
    end: int,
    refill: Seq<u8>,
)
    requires
        0 <= start < content.len(),
        start < end,
        refill.len() == drained_part(content, start, end).len(),
    ensures
        (retained_part(content, start, end) + refill).len() == content.len(),
{
}

/// Law: draining the full range empties the source — the retained part is
/// the empty sequence — while the drained buffer holds the entire original
/// content, byte for byte.
pub proof fn lemma_full_drain_round_trip(content: Seq<u8>)
    ensures
        drained_part(content, 0, content.len() as int) == content,
        retained_part(content, 0, content.len() as int) == Seq::<u8>::empty(),
{
    assert(drained_part(content, 0, content.len() as int) =~= content);
    assert(retained_part(content, 0, content.len() as int) =~= Seq::<u8>::empty());
}

} // verus!

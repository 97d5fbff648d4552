//! Parallel postings storage and reader slices: three same-sized arrays of
//! offsets addressed by term id, growing together.

use vstd::prelude::*;
use vstd::pervasive::VecAdditionalExecFns;

verus! {

/// Bytes one posting occupies across the three parallel arrays.
pub const BYTES_PER_POSTING: usize = 12;

/// Capacity `over_size` grows a minimum to: an eighth of headroom plus a
/// small constant, so repeated growth stays amortized.
pub open spec fn spec_over_size(min_size: int) -> int {
    if min_size < 8 {
        8
    } else {
        min_size + min_size / 8 + 3
    }
}

/// Grow a capacity to at least `min_size`, with an eighth of headroom so
/// repeated growth stays amortized.
pub fn over_size(min_size: usize) -> (r: usize)
    requires
        min_size <= 0x7fff_ffff,
    ensures
        r == spec_over_size(min_size as int),
        r > min_size,
{
    if min_size < 8 {
        8
    } else {
        proof {
            assert(min_size / 8 <= min_size) by (nonlinear_arith);
        }
        min_size + min_size / 8 + 3
    }
}

/// Three parallel arrays of offsets, one slot per term id.
pub struct ParallelPostingsArray {
    /// Number of usable slots in each array.
    pub size: usize,
    /// Offset of each term's text.
    pub text_starts: Vec<u32>,
    /// Offset of each term's entry in the int block pool.
    pub int_starts: Vec<u32>,
    /// Offset of each term's entry in the byte block pool.
    pub byte_starts: Vec<u32>,
}

impl ParallelPostingsArray {
    /// The three arrays hold exactly `size` slots each.
    pub open spec fn wf(&self) -> bool {
        &&& self.text_starts@.len() == self.size
        &&& self.int_starts@.len() == self.size
        &&& self.byte_starts@.len() == self.size
        &&& self.size <= 0x7fff_ffff
    }

    /// Arrays of `size` zeroed slots.
    pub fn new(size: usize) -> (r: ParallelPostingsArray)
        requires
            size <= 0x7fff_ffff,
        ensures
            r.wf(),
            r.size == size,
            forall|i: int| 0 <= i < size ==> #[trigger] r.text_starts@[i] == 0,
            forall|i: int| 0 <= i < size ==> #[trigger] r.int_starts@[i] == 0,
            forall|i: int| 0 <= i < size ==> #[trigger] r.byte_starts@[i] == 0,
    {
        ParallelPostingsArray {
            size,
            text_starts: vec![0u32; size],
            int_starts: vec![0u32; size],
            byte_starts: vec![0u32; size],
        }
    }

    /// Bytes one posting occupies.
    pub fn bytes_per_posting(&self) -> (r: usize)
        ensures
            r == BYTES_PER_POSTING,
    {
        BYTES_PER_POSTING
    }

    /// Grow all three arrays together to the oversized capacity for one
    /// more slot, capped at the document-id bound; existing slots keep
    /// their values and every new slot is zero.
    pub fn grow(&mut self)
        requires
            old(self).wf(),
            old(self).size < 0x7fff_ffff,
        ensures
            final(self).wf(),
            final(self).size > old(self).size,
            final(self).size == if spec_over_size(old(self).size + 1) > 0x7fff_ffff {
                0x7fff_ffff as int
            } else {
                spec_over_size(old(self).size + 1)
            },
            final(self).text_starts@.subrange(0, old(self).size as int) == old(self).text_starts@,
            final(self).int_starts@.subrange(0, old(self).size as int) == old(self).int_starts@,
            final(self).byte_starts@.subrange(0, old(self).size as int) == old(self).byte_starts@,
            forall|i: int|
                old(self).size <= i < final(self).size ==> (#[trigger] final(self).text_starts@[i]) == 0 && final(self).int_starts@[i] == 0 && final(self).byte_starts@[i] == 0,
    {
        let new_size = over_size(self.size + 1);
        let new_size = if new_size > 0x7fff_ffff {
            0x7fff_ffff
        } else {
            new_size
        };
        extend_zeroed(&mut self.text_starts, new_size);
        extend_zeroed(&mut self.int_starts, new_size);
        extend_zeroed(&mut self.byte_starts, new_size);
        proof {
            assert(self.text_starts@.subrange(0, old(self).size as int) =~= old(
                self,
            ).text_starts@);
            assert(self.int_starts@.subrange(0, old(self).size as int) =~= old(self).int_starts@);
            assert(self.byte_starts@.subrange(0, old(self).size as int) =~= old(
                self,
            ).byte_starts@);
        }
        self.size = new_size;
    }

    /// Drop all slots.
    pub fn clear(&mut self)
        ensures
            final(self).wf(),
            final(self).size == 0,
    {
        self.size = 0;
        self.text_starts = Vec::new();
        self.int_starts = Vec::new();
        self.byte_starts = Vec::new();
    }
}

impl Default for ParallelPostingsArray {
    /// Arrays of two zeroed slots, the default initial capacity.
    fn default() -> (r: Self)
        ensures
            r.wf(),
            r.size == 2,
    {
        ParallelPostingsArray::new(2)
    }
}

/// Extend a vector with zeros up to `new_len`, keeping existing slots.
fn extend_zeroed(v: &mut Vec<u32>, new_len: usize)
    requires
        old(v)@.len() <= new_len,
    ensures
        final(v)@.len() == new_len,
        forall|i: int| 0 <= i < old(v)@.len() ==> final(v)@[i] == old(v)@[i],
        forall|i: int| old(v)@.len() <= i < new_len ==> final(v)@[i] == 0,
{
    while v.len() < new_len
        invariant
            old(v)@.len() <= v@.len() <= new_len,
            forall|i: int| 0 <= i < old(v)@.len() ==> v@[i] == old(v)@[i],
            forall|i: int| old(v)@.len() <= i < v@.len() ==> v@[i] == 0,
        decreases new_len - v@.len(),
    {
        v.push(0u32);
    }
}

/// Addresses one reader's contiguous document-id range inside a composite
/// reader.
#[derive(Copy, Clone)]
pub struct ReaderSlice {
    /// First document id of the slice.
    pub start: i32,
    /// Number of documents in the slice.
    pub length: i32,
    /// Index of the reader inside the composite.
    pub reader_index: usize,
}

impl ReaderSlice {
    /// A slice of `length` documents starting at `start` for reader
    /// `reader_index`.
    pub fn new(start: i32, length: i32, reader_index: usize) -> (r: ReaderSlice)
        ensures
            r.start == start,
            r.length == length,
            r.reader_index == reader_index,
    {
        ReaderSlice { start, length, reader_index }
    }
}

} // verus!

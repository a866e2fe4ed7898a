//! A walk through a slice in chunks that overlap.

use vstd::prelude::*;

verus! {

/// A walk through a slice in chunks. Each chunk begins `size` items behind the
/// one before it and is `size + overlap` items long, or shorter where the
/// slice ends before that.
pub struct OverlappingChunks<'a, T> {
    pub slice: &'a [T],
    pub cursor: usize,
    pub size: usize,
    pub overlap: usize,
}

impl<'a, T> OverlappingChunks<'a, T> {
    /// A walk from the start of the slice.
    pub fn new(slice: &'a [T], size: usize, overlap: usize) -> (chunks: Self)
        ensures
            chunks.slice == slice,
            chunks.cursor == 0,
            chunks.size == size,
            chunks.overlap == overlap,
    {
        Self { slice, cursor: 0, size, overlap }
    }

    /// Where the chunk that begins at the cursor ends.
    pub open spec fn chunk_end(&self) -> int {
        if self.cursor + self.size + self.overlap <= self.slice@.len() {
            self.cursor + self.size + self.overlap
        } else {
            self.slice@.len() as int
        }
    }

    /// The next chunk, if the cursor has not left the slice, and the cursor
    /// moved on by `size`. A cursor that cannot move on that far leaves the
    /// slice.
    pub fn next(&mut self) -> (chunk: Option<&'a [T]>)
        ensures
            final(self).slice == old(self).slice,
            final(self).size == old(self).size,
            final(self).overlap == old(self).overlap,
            old(self).cursor < old(self).slice@.len() ==> {
                &&& chunk is Some
                &&& chunk.unwrap()@ == old(self).slice@.subrange(
                    old(self).cursor as int,
                    old(self).chunk_end(),
                )
                &&& final(self).cursor == if old(self).cursor + old(self).size <= usize::MAX {
                    (old(self).cursor + old(self).size) as usize
                } else {
                    usize::MAX
                }
            },
            old(self).cursor >= old(self).slice@.len() ==> {
                &&& chunk is None
                &&& final(self).cursor == old(self).cursor
            },
    {
        let offset = self.cursor;
        let len = self.slice.len();
        if offset < len {
            self.cursor = offset.saturating_add(self.size);
            let reach = offset.saturating_add(self.size).saturating_add(self.overlap);
            let end = if reach < len {
                reach
            } else {
                len
            };
            Some(vstd::slice::slice_subrange(self.slice, offset, end))
        } else {
            None
        }
    }
}

} // verus!

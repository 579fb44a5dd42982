//! Bump-style sub-allocation out of one large backing memory block.
//!
//! The allocator only ever advances a cursor; individual sub-allocations are
//! never freed. The whole block is released at teardown (or the cursor is
//! moved back to zero by [`LinearAllocator::reset`], which invalidates every
//! previously issued sub-allocation).

use vstd::prelude::*;

verus! {

use crate::handles::MemoryHandle;
use vstd::arithmetic::div_mod::{
    lemma_fundamental_div_mod,
    lemma_mod_division_less_than_divisor,
    lemma_mod_multiples_basic,
    lemma_mod_self_0,
    lemma_small_mod,
};

/// The next offset at or after `offset` that is a multiple of `alignment`.
pub open spec fn spec_aligned_offset(offset: int, alignment: int) -> int
    recommends
        alignment >= 1,
{
    offset + ((alignment - offset % alignment) % alignment)
}

/// Basic facts about [`spec_aligned_offset`]: the aligned offset is a
/// multiple of the alignment and lies in `[offset, offset + alignment)`.
pub proof fn lemma_aligned_offset_bounds(offset: int, alignment: int)
    requires
        offset >= 0,
        alignment >= 1,
    ensures
        spec_aligned_offset(offset, alignment) % alignment == 0,
        offset <= spec_aligned_offset(offset, alignment) < offset + alignment,
        spec_aligned_offset(offset, alignment) == if offset % alignment == 0 {
            offset
        } else {
            offset + alignment - offset % alignment
        },
{
    let m = offset % alignment;
    lemma_mod_division_less_than_divisor(offset, alignment);
    lemma_fundamental_div_mod(offset, alignment);
    let q = offset / alignment;
    if m == 0 {
        lemma_mod_self_0(alignment);
        assert(spec_aligned_offset(offset, alignment) == offset);
        lemma_mod_multiples_basic(q, alignment);
        assert(offset % alignment == 0);
    } else {
        lemma_small_mod((alignment - m) as nat, alignment as nat);
        assert(spec_aligned_offset(offset, alignment) == offset + alignment - m);
        assert(offset == alignment * q + m);
        assert(offset + alignment - m == (q + 1) * alignment) by (nonlinear_arith)
            requires offset == alignment * q + m, alignment >= 1;
        lemma_mod_multiples_basic(q + 1, alignment);
    }
}

/// Compute the next aligned offset at or after `offset`.
pub fn get_aligned_offset(offset: u64, alignment: u64) -> (r: u64)
    requires
        alignment >= 1,
        offset + alignment - 1 <= u64::MAX,
    ensures
        r == spec_aligned_offset(offset as int, alignment as int),
        r % alignment == 0,
        offset <= r < offset + alignment,
{
    proof {
        lemma_aligned_offset_bounds(offset as int, alignment as int);
        lemma_mod_division_less_than_divisor(offset as int, alignment as int);
    }
    let misalignment = offset % alignment;
    let padding = if misalignment == 0 {
        0
    } else {
        alignment - misalignment
    };
    offset + padding
}

/// An allocation within a larger chunk of allocated memory.
///
/// A sub-allocation does not own the backing memory; it stays valid only
/// until its allocator is reset or torn down.
#[derive(Clone, Copy, Debug, PartialEq, Eq, Structural)]
pub struct SubAllocation {
    pub memory: MemoryHandle,
    pub offset: u64,
    pub size: u64,
}

#[derive(Clone, Copy, Debug, PartialEq, Eq, Structural)]
pub enum SubAllocationError {
    OutOfMemory,
}

/// A simple linear (bump) allocator over one backing memory block.
pub struct LinearAllocator {
    memory: MemoryHandle,
    size: u64,
    free_section_start: u64,
}

impl LinearAllocator {
    /// The backing memory handle.
    pub closed spec fn spec_memory(&self) -> MemoryHandle {
        self.memory
    }

    /// Total size of the backing block in bytes.
    pub closed spec fn spec_size(&self) -> u64 {
        self.size
    }

    /// Cursor: everything before it is handed out, everything from it on is free.
    pub closed spec fn spec_cursor(&self) -> u64 {
        self.free_section_start
    }

    pub open spec fn wf(&self) -> bool {
        self.spec_cursor() <= self.spec_size()
    }

    /// Create a new linear allocator that hands out sub-regions of the
    /// given backing memory block of `size` bytes.
    pub fn new(memory: MemoryHandle, size: u64) -> (r: Self)
        ensures
            r.spec_memory() == memory,
            r.spec_size() == size,
            r.spec_cursor() == 0,
            r.wf(),
    {
        LinearAllocator { memory, size, free_section_start: 0 }
    }

    /// The backing memory handle, e.g. for freeing it at teardown.
    pub fn memory(&self) -> (r: MemoryHandle)
        ensures
            r == self.spec_memory(),
    {
        self.memory
    }

    /// Total size of the backing block in bytes.
    pub fn size(&self) -> (r: u64)
        ensures
            r == self.spec_size(),
    {
        self.size
    }

    /// Executable mirror of the allocator's well-formedness, so that
    /// unverified callers can test it before calling in.
    pub fn is_well_formed(&self) -> (r: bool)
        ensures
            r == self.wf(),
    {
        self.free_section_start <= self.size
    }

    /// Current cursor position (start of the free section).
    pub fn free_section_start(&self) -> (r: u64)
        ensures
            r == self.spec_cursor(),
    {
        self.free_section_start
    }

    /// Try to carve a sub-region of `size` bytes, aligned to `alignment`,
    /// out of the free section.
    ///
    /// The request succeeds exactly when the aligned end offset still fits
    /// in the backing block; on success the cursor advances to that end
    /// offset, so offsets handed out never decrease. Failure leaves the
    /// allocator unchanged and is recoverable: the caller may retry with a
    /// smaller request or size the backing block more generously.
    pub fn allocate(&mut self, size: u64, alignment: u64) -> (r: Result<
        SubAllocation,
        SubAllocationError,
    >)
        requires
            old(self).wf(),
            alignment >= 1,
        ensures
            final(self).wf(),
            final(self).spec_memory() == old(self).spec_memory(),
            final(self).spec_size() == old(self).spec_size(),
            ({
                let aligned = spec_aligned_offset(
                    old(self).spec_cursor() as int,
                    alignment as int,
                );
                if aligned + size <= old(self).spec_size() {
                    &&& r == Ok::<SubAllocation, SubAllocationError>((SubAllocation {
                        memory: old(self).spec_memory(),
                        offset: aligned as u64,
                        size: size,
                    }))
                    &&& final(self).spec_cursor() == aligned + size
                } else {
                    &&& r == Err::<SubAllocation, SubAllocationError>(
                        SubAllocationError::OutOfMemory,
                    )
                    &&& *final(self) == *old(self)
                }
            }),
            r matches Ok(sub) ==> {
                &&& sub.offset % alignment == 0
                &&& old(self).spec_cursor() <= sub.offset
                &&& final(self).spec_cursor() == sub.offset + sub.size
            },
            // the cursor follows the request model of the sequence laws below
            final(self).spec_cursor() == spec_step_cursor(
                old(self).spec_cursor() as int,
                old(self).spec_size() as int,
                (size as int, alignment as int),
            ),
    {
        proof {
            lemma_aligned_offset_bounds(self.free_section_start as int, alignment as int);
            lemma_mod_division_less_than_divisor(self.free_section_start as int, alignment as int);
        }
        let misalignment = self.free_section_start % alignment;
        let padding = if misalignment == 0 {
            0
        } else {
            alignment - misalignment
        };
        let offset = match self.free_section_start.checked_add(padding) {
            Some(offset) => offset,
            None => {
                return Err(SubAllocationError::OutOfMemory);
            },
        };
        let new_start = match offset.checked_add(size) {
            Some(new_start) => new_start,
            None => {
                return Err(SubAllocationError::OutOfMemory);
            },
        };
        if new_start <= self.size {
            self.free_section_start = new_start;
            Ok(SubAllocation { memory: self.memory, offset, size })
        } else {
            Err(SubAllocationError::OutOfMemory)
        }
    }

    /// Move the cursor back to zero, making the whole block free again.
    ///
    /// This invalidates every previously issued sub-allocation; the caller
    /// is responsible for ensuring none of them is still in use.
    pub fn reset(&mut self)
        ensures
            final(self).spec_cursor() == 0,
            final(self).spec_memory() == old(self).spec_memory(),
            final(self).spec_size() == old(self).spec_size(),
            final(self).wf(),
    {
        self.free_section_start = 0;
    }
}

// ---------------------------------------------------------------------------
// Allocation-sequence laws.
//
// `allocate` already states, call by call, that the returned offset is
// aligned, no smaller than the cursor, and that the cursor advances to the
// end of the returned region. The functions and lemmas below lift this to
// whole sequences of requests: over any sequence of `allocate(size,
// alignment)` calls, the offsets returned by the successful calls are
// non-decreasing, and each is a multiple of its alignment.
// ---------------------------------------------------------------------------

/// An allocation request as a pair `(size, alignment)`.
pub open spec fn spec_request_valid(req: (int, int)) -> bool {
    req.0 >= 0 && req.1 >= 1
}

pub open spec fn spec_requests_valid(reqs: Seq<(int, int)>) -> bool {
    forall|k: int| 0 <= k < reqs.len() ==> spec_request_valid(#[trigger] reqs[k])
}

/// The cursor after serving one request against a backing block of
/// `total` bytes; a request that does not fit leaves the cursor unchanged.
pub open spec fn spec_step_cursor(cursor: int, total: int, req: (int, int)) -> int {
    let aligned = spec_aligned_offset(cursor, req.1);
    if aligned + req.0 <= total {
        aligned + req.0
    } else {
        cursor
    }
}

/// The cursor after serving a whole sequence of requests.
pub open spec fn spec_cursor_after(cursor: int, total: int, reqs: Seq<(int, int)>) -> int
    decreases reqs.len(),
{
    if reqs.len() == 0 {
        cursor
    } else {
        spec_cursor_after(spec_step_cursor(cursor, total, reqs[0]), total, reqs.drop_first())
    }
}

/// The cursor right before request `k` of the sequence is served.
pub open spec fn spec_cursor_before_request(
    cursor: int,
    total: int,
    reqs: Seq<(int, int)>,
    k: int,
) -> int {
    spec_cursor_after(cursor, total, reqs.take(k))
}

/// The offset request `k` would return if it succeeds.
pub open spec fn spec_request_offset(cursor: int, total: int, reqs: Seq<(int, int)>, k: int) -> int {
    spec_aligned_offset(spec_cursor_before_request(cursor, total, reqs, k), reqs[k].1)
}

proof fn lemma_step_cursor_nondecreasing(cursor: int, total: int, req: (int, int))
    requires
        cursor >= 0,
        spec_request_valid(req),
    ensures
        cursor <= spec_step_cursor(cursor, total, req),
{
    lemma_aligned_offset_bounds(cursor, req.1);
}

proof fn lemma_cursor_after_push(cursor: int, total: int, reqs: Seq<(int, int)>, req: (int, int))
    ensures
        spec_cursor_after(cursor, total, reqs.push(req)) == spec_step_cursor(
            spec_cursor_after(cursor, total, reqs),
            total,
            req,
        ),
    decreases reqs.len(),
{
    if reqs.len() == 0 {
        assert(reqs.push(req)[0] == req);
        assert(reqs.push(req).drop_first() =~= Seq::<(int, int)>::empty());
        assert(spec_cursor_after(cursor, total, reqs.push(req)) == spec_cursor_after(
            spec_step_cursor(cursor, total, req),
            total,
            reqs.push(req).drop_first(),
        ));
        assert(spec_cursor_after(cursor, total, reqs) == cursor);
    } else {
        assert(reqs.push(req)[0] == reqs[0]);
        assert(reqs.push(req).drop_first() =~= reqs.drop_first().push(req));
        lemma_cursor_after_push(
            spec_step_cursor(cursor, total, reqs[0]),
            total,
            reqs.drop_first(),
            req,
        );
        assert(spec_cursor_after(cursor, total, reqs.push(req)) == spec_cursor_after(
            spec_step_cursor(cursor, total, reqs[0]),
            total,
            reqs.push(req).drop_first(),
        ));
        assert(spec_cursor_after(cursor, total, reqs) == spec_cursor_after(
            spec_step_cursor(cursor, total, reqs[0]),
            total,
            reqs.drop_first(),
        ));
    }
}

proof fn lemma_cursor_before_request_mono(
    cursor: int,
    total: int,
    reqs: Seq<(int, int)>,
    i: int,
    j: int,
)
    requires
        cursor >= 0,
        spec_requests_valid(reqs),
        0 <= i <= j <= reqs.len(),
    ensures
        cursor <= spec_cursor_before_request(cursor, total, reqs, i),
        spec_cursor_before_request(cursor, total, reqs, i) <= spec_cursor_before_request(
            cursor,
            total,
            reqs,
            j,
        ),
    decreases j, i,
{
    if j == 0 {
        assert(reqs.take(0) =~= Seq::<(int, int)>::empty());
    } else if i == j {
        lemma_cursor_before_request_mono(cursor, total, reqs, 0, i);
    } else {
        lemma_cursor_before_request_mono(cursor, total, reqs, i, j - 1);
        assert(reqs.take(j) =~= reqs.take(j - 1).push(reqs[j - 1]));
        lemma_cursor_after_push(cursor, total, reqs.take(j - 1), reqs[j - 1]);
        lemma_step_cursor_nondecreasing(
            spec_cursor_before_request(cursor, total, reqs, j - 1),
            total,
            reqs[j - 1],
        );
    }
}

/// Bump allocator monotonicity: over any sequence of allocation requests
/// served from cursor `cursor` out of `total` bytes, the offset returned by
/// a successful request is a multiple of its alignment, and offsets of
/// successful requests are non-decreasing in request order.
pub proof fn lemma_allocation_offsets_monotonic(
    cursor: int,
    total: int,
    reqs: Seq<(int, int)>,
    i: int,
    j: int,
)
    requires
        cursor >= 0,
        spec_requests_valid(reqs),
        0 <= i <= j < reqs.len(),
        // request `i` succeeds (a failed request returns no offset)
        spec_request_offset(cursor, total, reqs, i) + reqs[i].0 <= total,
    ensures
        spec_request_offset(cursor, total, reqs, i) % reqs[i].1 == 0,
        spec_request_offset(cursor, total, reqs, i) <= spec_request_offset(cursor, total, reqs, j),
{
    let ci = spec_cursor_before_request(cursor, total, reqs, i);
    let oi = spec_request_offset(cursor, total, reqs, i);
    let cj = spec_cursor_before_request(cursor, total, reqs, j);
    let oj = spec_request_offset(cursor, total, reqs, j);
    lemma_cursor_before_request_mono(cursor, total, reqs, 0, i);
    lemma_aligned_offset_bounds(ci, reqs[i].1);
    if i < j {
        // after request i the cursor stands at the end of its region
        assert(reqs.take(i + 1) =~= reqs.take(i).push(reqs[i]));
        lemma_cursor_after_push(cursor, total, reqs.take(i), reqs[i]);
        assert(spec_cursor_before_request(cursor, total, reqs, i + 1) == oi + reqs[i].0);
        lemma_cursor_before_request_mono(cursor, total, reqs, i + 1, j);
        lemma_aligned_offset_bounds(cj, reqs[j].1);
    }
}

} // verus!

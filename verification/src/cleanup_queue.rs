//! A queue for cleaning up device resources. Destruction of a queued
//! resource is delayed by a full rotation of the frame slots, so that no
//! in-flight frame can still reference it when it is finally destroyed.
//!
//! The queue itself never talks to the device: [`CleanupQueue::tick`] and
//! [`CleanupQueue::destroy`] hand the handles that became safe to destroy
//! back to the caller, who performs the actual device frees.

use vstd::prelude::*;

verus! {

use crate::handles::{BufferHandle, MemoryHandle};
use vstd::arithmetic::div_mod::{
    lemma_add_mod_noop,
    lemma_mod_add_multiples_vanish,
    lemma_mod_division_less_than_divisor,
    lemma_mod_self_0,
    lemma_mod_sub_multiples_vanish,
    lemma_small_mod,
};

/// A resource the queue can take ownership of: a closed set of variants
/// instead of open-ended dispatch.
#[derive(Clone, Copy, Debug, PartialEq, Eq, Structural)]
pub enum ResourceHandle {
    Buffer(BufferHandle),
    Memory(MemoryHandle),
}

/// Abstract state of one bucket: the resources waiting in one frame slot.
pub struct CleanupBucketModel {
    pub buffers: Seq<BufferHandle>,
    pub memory: Seq<MemoryHandle>,
}

impl CleanupBucketModel {
    pub open spec fn empty() -> CleanupBucketModel {
        CleanupBucketModel { buffers: Seq::empty(), memory: Seq::empty() }
    }

    pub open spec fn is_empty(self) -> bool {
        self.buffers.len() == 0 && self.memory.len() == 0
    }
}

/// Abstract state of a [`CleanupQueue`]: one bucket per frame slot and the
/// index of the current slot.
pub struct CleanupQueueModel {
    pub buckets: Seq<CleanupBucketModel>,
    pub current: nat,
}

impl CleanupQueueModel {
    pub open spec fn num_frames(self) -> nat {
        self.buckets.len()
    }

    pub open spec fn wf(self) -> bool {
        &&& self.num_frames() >= 1
        &&& self.current < self.num_frames()
    }

    /// The bucket newly queued resources go to: one slot behind the
    /// current one, so a full rotation passes before they are drained.
    pub open spec fn queue_bucket_index(self) -> int {
        (self.current as int + self.num_frames() as int - 1) % (self.num_frames() as int)
    }

    pub open spec fn queue_buffer(self, handle: BufferHandle) -> CleanupQueueModel {
        let i = self.queue_bucket_index();
        CleanupQueueModel {
            buckets: self.buckets.update(
                i,
                CleanupBucketModel {
                    buffers: self.buckets[i].buffers.push(handle),
                    memory: self.buckets[i].memory,
                },
            ),
            current: self.current,
        }
    }

    pub open spec fn queue_memory(self, handle: MemoryHandle) -> CleanupQueueModel {
        let i = self.queue_bucket_index();
        CleanupQueueModel {
            buckets: self.buckets.update(
                i,
                CleanupBucketModel {
                    buffers: self.buckets[i].buffers,
                    memory: self.buckets[i].memory.push(handle),
                },
            ),
            current: self.current,
        }
    }

    pub open spec fn queue(self, resource: ResourceHandle) -> CleanupQueueModel {
        match resource {
            ResourceHandle::Buffer(handle) => self.queue_buffer(handle),
            ResourceHandle::Memory(handle) => self.queue_memory(handle),
        }
    }

    /// What one tick drains: the bucket of the current slot.
    pub open spec fn tick_drained(self) -> CleanupBucketModel {
        self.buckets[self.current as int]
    }

    /// State after one tick: the current bucket is emptied and the current
    /// slot advances by one, wrapping around.
    pub open spec fn tick_next(self) -> CleanupQueueModel {
        CleanupQueueModel {
            buckets: self.buckets.update(self.current as int, CleanupBucketModel::empty()),
            current: (((self.current + 1) as int % (self.num_frames() as int)) as nat),
        }
    }

    /// State after `k` consecutive ticks.
    pub open spec fn after_ticks(self, k: nat) -> CleanupQueueModel
        decreases k,
    {
        if k == 0 {
            self
        } else {
            self.tick_next().after_ticks((k - 1) as nat)
        }
    }

    /// No bucket holds the given buffer handle.
    pub open spec fn buffer_absent(self, handle: BufferHandle) -> bool {
        forall|i: int|
            0 <= i < self.buckets.len() ==> !(#[trigger] self.buckets[i]).buffers.contains(handle)
    }

    /// Only bucket `j` may hold the given buffer handle.
    pub open spec fn buffer_only_in(self, handle: BufferHandle, j: int) -> bool {
        forall|i: int|
            0 <= i < self.buckets.len() && i != j ==> !(#[trigger] self.buckets[i]).buffers.contains(
                handle,
            )
    }
}

struct QueuedFrame {
    buffers: Vec<BufferHandle>,
    memory: Vec<MemoryHandle>,
}

impl View for QueuedFrame {
    type V = CleanupBucketModel;

    closed spec fn view(&self) -> CleanupBucketModel {
        CleanupBucketModel { buffers: self.buffers@, memory: self.memory@ }
    }
}

impl QueuedFrame {
    fn new() -> (r: Self)
        ensures
            r@ == CleanupBucketModel::empty(),
    {
        let r = QueuedFrame { buffers: Vec::new(), memory: Vec::new() };
        proof {
            assert(r@.buffers =~= Seq::<BufferHandle>::empty());
            assert(r@.memory =~= Seq::<MemoryHandle>::empty());
        }
        r
    }
}

/// A queue for cleaning up resources. Deletion of resources is delayed by
/// N frame slots to avoid destroying anything an in-flight frame still
/// uses. N should be the number of frames that can be in flight at once.
pub struct CleanupQueue {
    frame_queue: Vec<QueuedFrame>,
    current_frame_index: usize,
}

impl View for CleanupQueue {
    type V = CleanupQueueModel;

    closed spec fn view(&self) -> CleanupQueueModel {
        CleanupQueueModel {
            buckets: self.frame_queue@.map_values(|frame: QueuedFrame| frame@),
            current: self.current_frame_index as nat,
        }
    }
}

impl CleanupQueue {
    pub open spec fn wf(&self) -> bool {
        self@.wf()
    }

    /// Create a queue with one bucket per frame slot.
    pub fn new(num_frames: usize) -> (r: Self)
        requires
            num_frames >= 1,
        ensures
            r.wf(),
            r@.num_frames() == num_frames,
            r@.current == 0,
            forall|i: int| 0 <= i < num_frames ==> (#[trigger] r@.buckets[i]).is_empty(),
    {
        let mut frame_queue: Vec<QueuedFrame> = Vec::new();
        let mut i: usize = 0;
        while i < num_frames
            invariant
                i <= num_frames,
                frame_queue@.len() == i,
                forall|j: int| 0 <= j < i ==> (#[trigger] frame_queue@[j])@.is_empty(),
            decreases num_frames - i,
        {
            frame_queue.push(QueuedFrame::new());
            i = i + 1;
        }
        CleanupQueue { frame_queue, current_frame_index: 0 }
    }

    /// Executable mirror of the queue's well-formedness, so that
    /// unverified callers can test it before calling in.
    pub fn is_well_formed(&self) -> (r: bool)
        ensures
            r == self.wf(),
    {
        self.frame_queue.len() >= 1 && self.current_frame_index < self.frame_queue.len()
    }

    /// The bucket index one slot behind the current one.
    fn queue_bucket_index(&self) -> (r: usize)
        requires
            self.wf(),
        ensures
            r == self@.queue_bucket_index(),
    {
        let n = self.frame_queue.len();
        let r = if self.current_frame_index == 0 {
            n - 1
        } else {
            self.current_frame_index - 1
        };
        proof {
            lemma_wrap_index(self.current_frame_index as int, n as int);
        }
        r
    }

    /// Queue a buffer for delayed destruction.
    pub fn queue_buffer(&mut self, buffer: BufferHandle)
        requires
            old(self).wf(),
        ensures
            final(self).wf(),
            final(self)@ == old(self)@.queue_buffer(buffer),
    {
        let i = self.queue_bucket_index();
        let frame = &mut self.frame_queue[i];
        frame.buffers.push(buffer);
        proof {
            assert(self@.buckets =~= old(self)@.queue_buffer(buffer).buckets);
        }
    }

    /// Queue a memory allocation for delayed destruction.
    pub fn queue_memory(&mut self, memory: MemoryHandle)
        requires
            old(self).wf(),
        ensures
            final(self).wf(),
            final(self)@ == old(self)@.queue_memory(memory),
    {
        let i = self.queue_bucket_index();
        let frame = &mut self.frame_queue[i];
        frame.memory.push(memory);
        proof {
            assert(self@.buckets =~= old(self)@.queue_memory(memory).buckets);
        }
    }

    /// Queue any supported resource for delayed destruction.
    pub fn queue(&mut self, resource: ResourceHandle)
        requires
            old(self).wf(),
        ensures
            final(self).wf(),
            final(self)@ == old(self)@.queue(resource),
    {
        match resource {
            ResourceHandle::Buffer(handle) => self.queue_buffer(handle),
            ResourceHandle::Memory(handle) => self.queue_memory(handle),
        }
    }

    /// Tick the queue: drain the bucket of the current slot and advance to
    /// the next slot.
    ///
    /// Call this exactly once per frame, after the frame's fence was seen
    /// signaled and before new resources are recorded into the slot. The
    /// returned handles are guaranteed to have sat in the queue for a full
    /// slot rotation and must now be destroyed by the caller.
    pub fn tick(&mut self) -> (r: (Vec<BufferHandle>, Vec<MemoryHandle>))
        requires
            old(self).wf(),
        ensures
            final(self).wf(),
            final(self)@ == old(self)@.tick_next(),
            r.0@ == old(self)@.tick_drained().buffers,
            r.1@ == old(self)@.tick_drained().memory,
    {
        let n = self.frame_queue.len();
        let mut buffers: Vec<BufferHandle> = Vec::new();
        let mut memory: Vec<MemoryHandle> = Vec::new();
        let frame = &mut self.frame_queue[self.current_frame_index];
        buffers.append(&mut frame.buffers);
        memory.append(&mut frame.memory);
        proof {
            assert(buffers@ =~= old(self)@.tick_drained().buffers);
            assert(memory@ =~= old(self)@.tick_drained().memory);
            assert(self@.buckets =~= old(self)@.tick_next().buckets);
            lemma_wrap_index_succ(self.current_frame_index as int, n as int);
        }
        self.current_frame_index = (self.current_frame_index + 1) % n;
        (buffers, memory)
    }

    /// Drain every bucket unconditionally, in slot order.
    ///
    /// Only for full shutdown, after all device work is known complete; the
    /// caller destroys the returned handles.
    pub fn destroy(&mut self) -> (r: (Vec<BufferHandle>, Vec<MemoryHandle>))
        requires
            old(self).wf(),
        ensures
            final(self).wf(),
            final(self)@.num_frames() == old(self)@.num_frames(),
            final(self)@.current == old(self)@.current,
            forall|i: int|
                0 <= i < final(self)@.num_frames() ==> (#[trigger] final(self)@.buckets[i]).is_empty(),
            r.0@ == spec_buffers_concat(old(self)@.buckets, old(self)@.buckets.len() as int),
            r.1@ == spec_memory_concat(old(self)@.buckets, old(self)@.buckets.len() as int),
    {
        let n = self.frame_queue.len();
        let mut buffers: Vec<BufferHandle> = Vec::new();
        let mut memory: Vec<MemoryHandle> = Vec::new();
        let mut i: usize = 0;
        while i < n
            invariant
                i <= n,
                n == self.frame_queue@.len(),
                old(self)@.buckets.len() == n,
                self.current_frame_index == old(self).current_frame_index,
                buffers@ == spec_buffers_concat(old(self)@.buckets, i as int),
                memory@ == spec_memory_concat(old(self)@.buckets, i as int),
                forall|j: int| 0 <= j < i ==> (#[trigger] self.frame_queue@[j])@.is_empty(),
                forall|j: int|
                    i <= j < n ==> #[trigger] self.frame_queue@[j]@ == old(self)@.buckets[j],
            decreases n - i,
        {
            proof {
                assert(self.frame_queue@[i as int]@ == old(self)@.buckets[i as int]);
            }
            let ghost pre_bucket = self.frame_queue@[i as int]@;
            let ghost pre_buffers = buffers@;
            let frame = &mut self.frame_queue[i];
            buffers.append(&mut frame.buffers);
            memory.append(&mut frame.memory);
            proof {
                assert(buffers@ == pre_buffers + pre_bucket.buffers);
                assert(self.frame_queue@[i as int]@.is_empty());
                assert(buffers@ == spec_buffers_concat(old(self)@.buckets, i as int)
                    + old(self)@.buckets[i as int].buffers);
                assert(spec_buffers_concat(old(self)@.buckets, i as int + 1)
                    == spec_buffers_concat(old(self)@.buckets, i as int)
                    + old(self)@.buckets[i as int].buffers);
            }
            i = i + 1;
        }
        (buffers, memory)
    }
}

/// The buffer handles of the first `j` buckets, concatenated in order.
pub open spec fn spec_buffers_concat(buckets: Seq<CleanupBucketModel>, j: int) -> Seq<BufferHandle>
    decreases j,
{
    if j <= 0 {
        Seq::empty()
    } else {
        spec_buffers_concat(buckets, j - 1) + buckets[j - 1].buffers
    }
}

/// The memory handles of the first `j` buckets, concatenated in order.
pub open spec fn spec_memory_concat(buckets: Seq<CleanupBucketModel>, j: int) -> Seq<MemoryHandle>
    decreases j,
{
    if j <= 0 {
        Seq::empty()
    } else {
        spec_memory_concat(buckets, j - 1) + buckets[j - 1].memory
    }
}

// ---------------------------------------------------------------------------
// Delay law. `queue_buffer`, `tick` and the other operations each ensure
// that the queue follows the corresponding model transition, so the law
// below carries over to any run of the executable code.
// ---------------------------------------------------------------------------

proof fn lemma_cycle_distinct(c: int, d: int, n: int)
    requires
        0 <= c < n,
        1 <= d < n,
    ensures
        (c + d) % n != c,
{
    if c + d < n {
        lemma_small_mod((c + d) as nat, n as nat);
    } else {
        lemma_mod_sub_multiples_vanish(c + d, n);
        lemma_small_mod((c + d - n) as nat, n as nat);
    }
}

proof fn lemma_tick_next_wf(s: CleanupQueueModel)
    requires
        s.wf(),
    ensures
        s.tick_next().wf(),
        s.tick_next().num_frames() == s.num_frames(),
        s.tick_next().current == (s.current + 1) as int % s.num_frames() as int,
{
    lemma_mod_division_less_than_divisor(s.current as int + 1, s.num_frames() as int);
}

proof fn lemma_absent_stays_absent(s: CleanupQueueModel, handle: BufferHandle, k: nat)
    requires
        s.wf(),
        s.buffer_absent(handle),
    ensures
        s.after_ticks(k).wf(),
        !s.after_ticks(k).tick_drained().buffers.contains(handle),
    decreases k,
{
    lemma_tick_next_wf(s);
    if k > 0 {
        lemma_absent_stays_absent(s.tick_next(), handle, (k - 1) as nat);
    }
}

proof fn lemma_only_in_drained(s: CleanupQueueModel, handle: BufferHandle, j: int, k: int)
    requires
        s.wf(),
        0 <= j < s.num_frames(),
        s.buffer_only_in(handle, j),
        s.buckets[j].buffers.contains(handle),
        1 <= k <= s.num_frames(),
    ensures
        s.after_ticks((k - 1) as nat).tick_drained().buffers.contains(handle) <==> (s.current as int
            + k - 1) % s.num_frames() as int == j,
    decreases k,
{
    let n = s.num_frames() as int;
    let c = s.current as int;
    if k == 1 {
        lemma_small_mod(s.current, s.num_frames());
    } else {
        let s1 = s.tick_next();
        lemma_tick_next_wf(s);
        if c == j {
            // the queued slot is drained right away; afterwards the handle
            // is gone and can never be drained again
            assert(s1.buffer_absent(handle));
            lemma_absent_stays_absent(s1, handle, (k - 2) as nat);
            lemma_cycle_distinct(c, k - 1, n);
        } else {
            assert(s1.buckets[j] == s.buckets[j]);
            assert(s1.buffer_only_in(handle, j));
            lemma_only_in_drained(s1, handle, j, k - 1);
            // the drained index seen from the advanced state is the same
            // slot in the original numbering
            lemma_small_mod((k - 2) as nat, s.num_frames());
            lemma_add_mod_noop(c + 1, k - 2, n);
        }
    }
}

/// Cleanup delay law: a resource queued while some slot is current is not
/// among the handles drained by any of the next `num_frames − 1` ticks,
/// and is drained by the tick after those — destruction happens no sooner
/// than one full slot rotation after queuing.
pub proof fn lemma_cleanup_delay(q: CleanupQueueModel, handle: BufferHandle, k: int)
    requires
        q.wf(),
        q.buffer_absent(handle),
        1 <= k <= q.num_frames(),
    ensures
        q.queue_buffer(handle).after_ticks((k - 1) as nat).tick_drained().buffers.contains(handle)
            <==> k == q.num_frames(),
{
    let n = q.num_frames() as int;
    let c = q.current as int;
    let j = q.queue_bucket_index();
    let q1 = q.queue_buffer(handle);
    lemma_mod_division_less_than_divisor(c + n - 1, n);
    assert(q1.buckets[j].buffers.contains(handle)) by {
        assert(q1.buckets[j].buffers.last() == handle);
    }
    assert(q1.buffer_only_in(handle, j));
    lemma_only_in_drained(q1, handle, j, k);
    if k == q.num_frames() {
        assert((c + k - 1) % n == j);
    } else {
        // k - 1 and n - 1 are distinct distances around the ring
        let r = (c + k - 1) % n;
        lemma_mod_division_less_than_divisor(c + k - 1, n);
        lemma_cycle_distinct(r, n - k, n);
        lemma_small_mod((n - k) as nat, n as nat);
        lemma_add_mod_noop(c + k - 1, n - k, n);
        assert((r + (n - k)) % n == (c + n - 1) % n);
    }
}

proof fn lemma_wrap_index(current: int, n: int)
    requires
        0 <= current < n,
    ensures
        (current + n - 1) % n == if current == 0 {
            n - 1
        } else {
            current - 1
        },
{
    if current == 0 {
        lemma_small_mod((n - 1) as nat, n as nat);
    } else {
        lemma_mod_add_multiples_vanish(current - 1, n);
        lemma_small_mod((current - 1) as nat, n as nat);
    }
}

proof fn lemma_wrap_index_succ(current: int, n: int)
    requires
        0 <= current < n,
    ensures
        (current + 1) % n == if current + 1 == n {
            0
        } else {
            current + 1
        },
{
    if current + 1 == n {
        lemma_mod_self_0(n);
    } else {
        lemma_small_mod((current + 1) as nat, n as nat);
    }
}

} // verus!

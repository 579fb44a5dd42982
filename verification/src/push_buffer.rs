//! A growable CPU-side buffer for data that is rebuilt every frame.
//!
//! Elements are written through a *pass*: starting a pass picks the index
//! the pass appends from and immediately sets the buffer's reported length
//! to that index; each push appends one element, doubling the capacity
//! whenever the write cursor reaches it; finishing the pass commits the
//! cursor as the new length. Capacity only ever grows, so after a warm-up
//! frame steady-state reuse allocates nothing.

use vstd::prelude::*;

verus! {

use vstd::math::min;

/// Abstract state of a [`PushBuffer`]: the stored elements, the committed
/// length (what [`PushBuffer::len`] reports) and the logical capacity.
pub struct PushBufferModel<T> {
    pub storage: Seq<T>,
    pub len: nat,
    pub cap: nat,
}

impl<T> PushBufferModel<T> {
    pub open spec fn wf(self) -> bool {
        &&& self.len <= self.storage.len()
        &&& self.storage.len() <= self.cap
        &&& self.cap >= 1
    }

    /// The committed contents: the first `len` stored elements.
    pub open spec fn contents(self) -> Seq<T> {
        self.storage.take(self.len as int)
    }

    /// State after a pass starts at `start_index`: the reported length
    /// becomes the start index (clamped to the stored prefix) and the
    /// elements from there on are discarded, to be rewritten by the pass.
    pub open spec fn start_pass(self, start_index: int) -> PushBufferModel<T> {
        let eff = min(start_index, self.storage.len() as int);
        PushBufferModel { storage: self.storage.take(eff), len: eff as nat, cap: self.cap }
    }

    /// State after a pass pushes `element`: the element is appended, the
    /// capacity doubles if the buffer was full, and the committed length
    /// stays untouched until the pass finishes.
    pub open spec fn push(self, element: T) -> PushBufferModel<T> {
        PushBufferModel {
            storage: self.storage.push(element),
            len: self.len,
            cap: if self.storage.len() == self.cap {
                self.cap * 2
            } else {
                self.cap
            },
        }
    }

    /// State after a pass finishes: the write cursor (the end of storage)
    /// is committed as the length.
    pub open spec fn finish(self) -> PushBufferModel<T> {
        PushBufferModel { storage: self.storage, len: self.storage.len(), cap: self.cap }
    }

    /// State after a pass pushes every element of `elements` in order.
    pub open spec fn push_all(self, elements: Seq<T>) -> PushBufferModel<T>
        decreases elements.len(),
    {
        if elements.len() == 0 {
            self
        } else {
            self.push(elements[0]).push_all(elements.drop_first())
        }
    }
}

#[derive(Clone, Copy, Debug, PartialEq, Eq, Structural)]
pub enum PushBufferError {
    /// The requested pass start index lies beyond the buffer's capacity.
    InvalidStartIndex,
}

/// A growable CPU-side buffer. Can be useful for vertex data that is
/// rebuilt and uploaded every frame.
pub struct PushBuffer<T> {
    data: Vec<T>,
    len: usize,
    cap: usize,
}

impl<T> View for PushBuffer<T> {
    type V = PushBufferModel<T>;

    closed spec fn view(&self) -> PushBufferModel<T> {
        PushBufferModel { storage: self.data@, len: self.len as nat, cap: self.cap as nat }
    }
}

impl<T> PushBuffer<T> {
    pub open spec fn wf(&self) -> bool {
        self@.wf()
    }

    /// Create a new buffer with the given capacity. The capacity has to be > 0.
    pub fn new(capacity: usize) -> (r: Self)
        requires
            capacity >= 1,
        ensures
            r.wf(),
            r@.storage == Seq::<T>::empty(),
            r@.len == 0,
            r@.cap == capacity,
    {
        PushBuffer { data: Vec::with_capacity(capacity), len: 0, cap: capacity }
    }

    /// Get the currently used (committed) length of the buffer.
    pub fn len(&self) -> (r: usize)
        ensures
            r == self@.len,
    {
        self.len
    }

    /// True iff the buffer is empty.
    pub fn is_empty(&self) -> (r: bool)
        ensures
            r <==> self@.len == 0,
    {
        self.len == 0
    }

    /// Get the total capacity of the buffer.
    pub fn capacity(&self) -> (r: usize)
        ensures
            r == self@.cap,
    {
        self.cap
    }

    /// Executable mirror of the buffer's well-formedness, so that
    /// unverified callers can test it before calling in.
    pub fn is_well_formed(&self) -> (r: bool)
        ensures
            r == self.wf(),
    {
        self.len <= self.data.len() && self.data.len() <= self.cap && self.cap >= 1
    }

    /// The committed contents of the buffer.
    pub fn data(&self) -> (r: &[T])
        requires
            self.wf(),
        ensures
            r@ == self@.contents(),
    {
        &self.data[0..self.len]
    }

    /// Start a new pass that (over)writes the buffer from `start_index` on.
    ///
    /// The buffer's reported length becomes the start index right away (so
    /// a buffer whose pass is never finished under-reports its length) and
    /// is only committed again by [`PushBufferPass::finish`]. A start index
    /// beyond the capacity is rejected; `start_index == capacity` is
    /// allowed and appends after a pass that filled the buffer exactly.
    pub fn start_pass(&mut self, start_index: usize) -> (r: Result<PushBufferPass, PushBufferError>)
        requires
            old(self).wf(),
        ensures
            final(self).wf(),
            r is Err <==> start_index > old(self)@.cap,
            r is Err ==> *final(self) == *old(self) && r == Err::<PushBufferPass, PushBufferError>(
                PushBufferError::InvalidStartIndex,
            ),
            r matches Ok(pass) ==> {
                &&& final(self)@ == old(self)@.start_pass(start_index as int)
                &&& pass.valid_for(final(self))
            },
    {
        if start_index > self.cap {
            return Err(PushBufferError::InvalidStartIndex);
        }
        self.data.truncate(start_index);
        self.len = self.data.len();
        proof {
            assert(self@.storage =~= old(self)@.start_pass(start_index as int).storage);
            assert(self@ == old(self)@.start_pass(start_index as int));
        }
        Ok(PushBufferPass::new(self))
    }
}

/// Exclusive write access to a [`PushBuffer`] from a given start index.
///
/// The pass tracks the write cursor; the buffer it belongs to is passed to
/// each operation.
pub struct PushBufferPass {
    cursor: usize,
}

impl PushBufferPass {
    /// The write cursor: the index the next pushed element lands at.
    pub closed spec fn spec_cursor(&self) -> nat {
        self.cursor as nat
    }

    /// The pass continues `buf` exactly at the end of its storage.
    pub open spec fn valid_for<T>(&self, buf: &PushBuffer<T>) -> bool {
        &&& self.spec_cursor() == buf@.storage.len()
        &&& buf.wf()
    }

    /// Create a pass for the given buffer, continuing at the end of its
    /// current storage.
    pub fn new<T>(buf: &PushBuffer<T>) -> (r: Self)
        ensures
            r.spec_cursor() == buf@.storage.len(),
            buf.wf() ==> r.valid_for(buf),
    {
        PushBufferPass { cursor: buf.data.len() }
    }

    /// Executable mirror of [`PushBufferPass::valid_for`], so that
    /// unverified callers can test the pairing before pushing.
    pub fn is_valid_for<T>(&self, buf: &PushBuffer<T>) -> (r: bool)
        ensures
            r == self.valid_for(buf),
    {
        self.cursor == buf.data.len() && buf.is_well_formed()
    }

    /// Push a new element onto the buffer. Doubles the capacity first if
    /// the buffer is full.
    pub fn push<T>(&mut self, buf: &mut PushBuffer<T>, element: T)
        requires
            old(self).valid_for(old(buf)),
            old(buf)@.storage.len() == old(buf)@.cap ==> old(buf)@.cap * 2 <= usize::MAX,
        ensures
            final(buf)@ == old(buf)@.push(element),
            final(self).valid_for(final(buf)),
            final(self).spec_cursor() == old(self).spec_cursor() + 1,
    {
        if self.cursor == buf.cap {
            buf.cap = buf.cap * 2;
        }
        buf.data.push(element);
        self.cursor = self.cursor + 1;
    }

    /// Finish the pass, committing the write cursor as the buffer's length.
    pub fn finish<T>(self, buf: &mut PushBuffer<T>)
        requires
            self.valid_for(old(buf)),
        ensures
            final(buf)@ == old(buf)@.finish(),
            final(buf).wf(),
    {
        buf.len = self.cursor;
    }
}

// ---------------------------------------------------------------------------
// Pass laws, stated over the abstract buffer state. `start_pass`, `push` and
// `finish` each ensure that the buffer follows the corresponding model
// transition, so these laws carry over to any run of the executable code.
// ---------------------------------------------------------------------------

/// Pushing a sequence of elements appends exactly those elements in order,
/// leaves the committed length untouched, keeps well-formedness and never
/// shrinks the capacity.
pub proof fn lemma_push_all_appends<T>(m: PushBufferModel<T>, elements: Seq<T>)
    requires
        m.wf(),
    ensures
        m.push_all(elements).storage == m.storage + elements,
        m.push_all(elements).len == m.len,
        m.push_all(elements).cap >= m.cap,
        m.push_all(elements).wf(),
    decreases elements.len(),
{
    if elements.len() == 0 {
        assert(m.storage + elements =~= m.storage);
    } else {
        let m1 = m.push(elements[0]);
        assert(m1.wf());
        lemma_push_all_appends(m1, elements.drop_first());
        assert(m1.storage + elements.drop_first() =~= m.storage + elements);
    }
}

/// Single-pass law: a pass that starts at index zero and pushes a sequence
/// of elements commits, on finish, exactly that sequence, with a capacity
/// no smaller than its length and no smaller than before.
pub proof fn lemma_single_pass<T>(m: PushBufferModel<T>, elements: Seq<T>)
    requires
        m.wf(),
    ensures
        ({
            let done = m.start_pass(0).push_all(elements).finish();
            &&& done.wf()
            &&& done.len == elements.len()
            &&& done.contents() == elements
            &&& done.cap >= elements.len()
            &&& done.cap >= m.cap
        }),
{
    let started = m.start_pass(0);
    assert(started.storage =~= Seq::<T>::empty());
    assert(started.wf());
    lemma_push_all_appends(started, elements);
    let done = started.push_all(elements).finish();
    assert(done.storage =~= elements);
    assert(done.contents() =~= elements);
}

/// Pass-reset law: starting a pass at index zero after any prior state,
/// pushing one element and finishing yields length one, stores exactly that
/// element, and preserves the prior capacity.
pub proof fn lemma_pass_reset<T>(m: PushBufferModel<T>, element: T)
    requires
        m.wf(),
    ensures
        ({
            let done = m.start_pass(0).push(element).finish();
            &&& done.wf()
            &&& done.len == 1
            &&& done.contents() == seq![element]
            &&& done.cap == m.cap
        }),
{
    let done = m.start_pass(0).push(element).finish();
    assert(done.storage =~= seq![element]);
    assert(done.contents() =~= seq![element]);
}

/// Partial-restart law: with two committed elements, a pass started at
/// index one that pushes one element and finishes leaves the length at two,
/// keeps the first element, overwrites the second, and preserves the
/// capacity.
pub proof fn lemma_pass_partial_restart<T>(m: PushBufferModel<T>, element: T)
    requires
        m.wf(),
        m.len == 2,
    ensures
        ({
            let done = m.start_pass(1).push(element).finish();
            &&& done.wf()
            &&& done.len == 2
            &&& done.contents() == seq![m.contents()[0], element]
            &&& done.cap == m.cap
        }),
{
    let done = m.start_pass(1).push(element).finish();
    assert(done.storage =~= seq![m.contents()[0], element]);
    assert(done.contents() =~= seq![m.contents()[0], element]);
}

} // verus!

//! Frame cycler / swapchain coordinator.
//!
//! One frame runs through a fixed sequence: wait on the slot's fence, tick
//! the cleanup queue, record commands, submit, present, advance to the next
//! slot. Before the sequence starts, a swapchain image is acquired; both
//! acquisition and presentation may report the swapchain *stale* (resized
//! or suboptimal), which is not an error but a signal to rebuild the
//! swapchain-dependent objects and retry acquisition within the same frame.
//!
//! The cycler holds the decisions of that loop as a verified state machine:
//! [`FrameCycler::step`] consumes the event the render loop observed and
//! returns the next [`FrameAction`] to perform. The surrounding application
//! owns the device and executes the actions; it aborts on any device error
//! other than staleness, which therefore never reaches this machine.

use vstd::prelude::*;

verus! {

/// Extent of the presentation surface in pixels.
#[derive(Clone, Copy, Debug, PartialEq, Eq, Structural)]
pub struct SurfaceExtent {
    pub width: u32,
    pub height: u32,
}

/// The next piece of work the render loop has to perform.
#[derive(Clone, Copy, Debug, PartialEq, Eq, Structural)]
pub enum FrameAction {
    /// Wait until the device is idle, then rebuild the swapchain-dependent
    /// objects (swapchain, image views, framebuffers) for the given extent.
    RebuildSwapchain { extent: SurfaceExtent },
    /// Try to acquire the next swapchain image, signalling the current
    /// slot's acquire semaphore.
    AcquireImage,
    /// Block until the given slot's fence is signaled, then reset the
    /// fence for reuse.
    WaitFence { frame: u32 },
    /// Tick the cleanup queue for the current slot and destroy the handles
    /// it hands back.
    TickCleanup,
    /// Record the frame's commands into the given slot: grow frame-local
    /// buffers (queueing replaced ones into the cleanup queue), write a
    /// barrier ordering the previous frame's vertex reads before the
    /// transfer writes, upload, then a barrier ordering the transfer
    /// before the vertex stage.
    RecordCommands { frame: u32, image_index: u32 },
    /// Submit the recorded commands, waiting on the acquire semaphore and
    /// signalling the render-complete semaphore and the slot's fence.
    SubmitCommands { frame: u32, image_index: u32 },
    /// Present the acquired image, waiting on the render-complete
    /// semaphore.
    PresentImage { image_index: u32 },
    /// The frame is finished and the cycler has advanced to the next slot.
    FrameComplete,
}

/// What the render loop observed while performing the previous action.
#[derive(Clone, Copy, Debug, PartialEq, Eq, Structural)]
pub enum FrameEvent {
    /// A new frame begins.
    Start,
    /// The swapchain-dependent objects were rebuilt.
    SwapchainRebuilt,
    /// Acquisition returned an image.
    AcquireOk { image_index: u32 },
    /// Acquisition reported the swapchain stale (out of date or
    /// suboptimal).
    AcquireStale,
    /// The slot's fence was seen signaled and has been reset.
    FenceWaited,
    /// The cleanup queue was ticked and the drained handles destroyed.
    CleanupTicked,
    /// The frame's commands were recorded.
    CommandsRecorded,
    /// The recorded commands were submitted.
    Submitted,
    /// Presentation succeeded.
    PresentOk,
    /// Presentation reported the swapchain stale.
    PresentStale,
}

/// Where within the current frame the cycler stands.
#[derive(Clone, Copy, Debug, PartialEq, Eq, Structural)]
pub enum FramePhase {
    /// No image acquired yet for this frame.
    Acquire,
    /// Image acquired; waiting on the slot's fence.
    WaitFence { image_index: u32 },
    /// Fence passed; the cleanup queue must tick.
    TickCleanup { image_index: u32 },
    /// Cleanup done; commands must be recorded.
    Record { image_index: u32 },
    /// Commands recorded; they must be submitted.
    Submit { image_index: u32 },
    /// Commands submitted; the image must be presented.
    Present { image_index: u32 },
}

/// Drives the per-frame sequence across `num_frames` rotating slots.
pub struct FrameCycler {
    /// Number of frames that may be in flight at once.
    pub num_frames: u32,
    /// The slot the CPU is currently recording into.
    pub current_frame: u32,
    /// Whether the swapchain is known stale and must be rebuilt before the
    /// next acquisition.
    pub stale: bool,
    /// The surface extent to rebuild the swapchain with.
    pub extent: SurfaceExtent,
    /// Position within the current frame.
    pub phase: FramePhase,
}

impl FrameCycler {
    pub open spec fn wf(&self) -> bool {
        &&& self.num_frames >= 1
        &&& self.current_frame < self.num_frames
    }

    /// The state with the current slot advanced by one, wrapping around.
    pub open spec fn spec_advance(self) -> FrameCycler {
        FrameCycler {
            current_frame: (((self.current_frame + 1) as int % self.num_frames as int) as u32),
            ..self
        }
    }

    /// Which events may arrive in which phase.
    pub open spec fn accepts(&self, event: FrameEvent) -> bool {
        match (self.phase, event) {
            (FramePhase::Acquire, FrameEvent::Start) => true,
            (FramePhase::Acquire, FrameEvent::SwapchainRebuilt) => true,
            (FramePhase::Acquire, FrameEvent::AcquireOk { .. }) => true,
            (FramePhase::Acquire, FrameEvent::AcquireStale) => true,
            (FramePhase::WaitFence { .. }, FrameEvent::FenceWaited) => true,
            (FramePhase::TickCleanup { .. }, FrameEvent::CleanupTicked) => true,
            (FramePhase::Record { .. }, FrameEvent::CommandsRecorded) => true,
            (FramePhase::Submit { .. }, FrameEvent::Submitted) => true,
            (FramePhase::Present { .. }, FrameEvent::PresentOk) => true,
            (FramePhase::Present { .. }, FrameEvent::PresentStale) => true,
            _ => false,
        }
    }

    /// The transition table: next state and next action for each accepted
    /// event.
    ///
    /// A stale report is answered by exactly one rebuild: a stale
    /// acquisition triggers the rebuild immediately and acquisition is
    /// retried within the same frame; a stale presentation marks the
    /// swapchain stale, so the next frame rebuilds before it acquires.
    pub open spec fn spec_step(self, event: FrameEvent) -> (FrameCycler, FrameAction) {
        match (self.phase, event) {
            (FramePhase::Acquire, FrameEvent::Start)
            | (FramePhase::Acquire, FrameEvent::SwapchainRebuilt) => {
                if self.stale {
                    (
                        FrameCycler { stale: false, ..self },
                        FrameAction::RebuildSwapchain { extent: self.extent },
                    )
                } else {
                    (self, FrameAction::AcquireImage)
                }
            },
            (FramePhase::Acquire, FrameEvent::AcquireStale) => (
                FrameCycler { stale: false, ..self },
                FrameAction::RebuildSwapchain { extent: self.extent },
            ),
            (FramePhase::Acquire, FrameEvent::AcquireOk { image_index }) => (
                FrameCycler { phase: FramePhase::WaitFence { image_index }, ..self },
                FrameAction::WaitFence { frame: self.current_frame },
            ),
            (FramePhase::WaitFence { image_index }, FrameEvent::FenceWaited) => (
                FrameCycler { phase: FramePhase::TickCleanup { image_index }, ..self },
                FrameAction::TickCleanup,
            ),
            (FramePhase::TickCleanup { image_index }, FrameEvent::CleanupTicked) => (
                FrameCycler { phase: FramePhase::Record { image_index }, ..self },
                FrameAction::RecordCommands { frame: self.current_frame, image_index },
            ),
            (FramePhase::Record { image_index }, FrameEvent::CommandsRecorded) => (
                FrameCycler { phase: FramePhase::Submit { image_index }, ..self },
                FrameAction::SubmitCommands { frame: self.current_frame, image_index },
            ),
            (FramePhase::Submit { image_index }, FrameEvent::Submitted) => (
                FrameCycler { phase: FramePhase::Present { image_index }, ..self },
                FrameAction::PresentImage { image_index },
            ),
            (FramePhase::Present { .. }, FrameEvent::PresentOk) => (
                FrameCycler { phase: FramePhase::Acquire, ..self }.spec_advance(),
                FrameAction::FrameComplete,
            ),
            (FramePhase::Present { .. }, FrameEvent::PresentStale) => (
                FrameCycler { phase: FramePhase::Acquire, stale: true, ..self }.spec_advance(),
                FrameAction::FrameComplete,
            ),
            _ => (self, FrameAction::FrameComplete),
        }
    }

    /// Create a cycler for `num_frames` frames in flight, starting at slot
    /// zero with a swapchain that matches the given extent.
    pub fn new(num_frames: u32, extent: SurfaceExtent) -> (r: Self)
        requires
            num_frames >= 1,
        ensures
            r.wf(),
            r.num_frames == num_frames,
            r.current_frame == 0,
            !r.stale,
            r.extent == extent,
            r.phase == FramePhase::Acquire,
    {
        FrameCycler {
            num_frames,
            current_frame: 0,
            stale: false,
            extent,
            phase: FramePhase::Acquire,
        }
    }

    /// Advance to the next frame slot. This has to happen once per frame
    /// for the per-slot synchronisation to stay in step.
    pub fn advance_frame(&mut self)
        requires
            old(self).wf(),
        ensures
            *final(self) == old(self).spec_advance(),
            final(self).wf(),
    {
        proof {
            lemma_wrap_succ(self.current_frame as int, self.num_frames as int);
        }
        self.current_frame = (self.current_frame + 1) % self.num_frames;
    }

    /// Executable mirror of [`FrameCycler::accepts`], so that unverified
    /// callers can test the stepping protocol before calling
    /// [`FrameCycler::step`].
    pub fn can_accept(&self, event: FrameEvent) -> (r: bool)
        ensures
            r == self.accepts(event),
    {
        match (self.phase, event) {
            (FramePhase::Acquire, FrameEvent::Start) => true,
            (FramePhase::Acquire, FrameEvent::SwapchainRebuilt) => true,
            (FramePhase::Acquire, FrameEvent::AcquireOk { .. }) => true,
            (FramePhase::Acquire, FrameEvent::AcquireStale) => true,
            (FramePhase::WaitFence { .. }, FrameEvent::FenceWaited) => true,
            (FramePhase::TickCleanup { .. }, FrameEvent::CleanupTicked) => true,
            (FramePhase::Record { .. }, FrameEvent::CommandsRecorded) => true,
            (FramePhase::Submit { .. }, FrameEvent::Submitted) => true,
            (FramePhase::Present { .. }, FrameEvent::PresentOk) => true,
            (FramePhase::Present { .. }, FrameEvent::PresentStale) => true,
            _ => false,
        }
    }

    /// Executable mirror of [`FrameCycler::wf`].
    pub fn is_well_formed(&self) -> (r: bool)
        ensures
            r == self.wf(),
    {
        self.num_frames >= 1 && self.current_frame < self.num_frames
    }

    /// Mark the swapchain stale for the next acquisition, remembering the
    /// new surface extent to rebuild with.
    pub fn notify_resize(&mut self, new_extent: SurfaceExtent)
        ensures
            *final(self) == (FrameCycler { stale: true, extent: new_extent, ..*old(self) }),
    {
        self.stale = true;
        self.extent = new_extent;
    }

    /// Consume the event the render loop observed and return the next
    /// action to perform, following the transition table.
    pub fn step(&mut self, event: FrameEvent) -> (action: FrameAction)
        requires
            old(self).wf(),
            old(self).accepts(event),
        ensures
            (*final(self), action) == old(self).spec_step(event),
            final(self).wf(),
    {
        match (self.phase, event) {
            (FramePhase::Acquire, FrameEvent::Start)
            | (FramePhase::Acquire, FrameEvent::SwapchainRebuilt) => {
                if self.stale {
                    self.stale = false;
                    FrameAction::RebuildSwapchain { extent: self.extent }
                } else {
                    FrameAction::AcquireImage
                }
            },
            (FramePhase::Acquire, FrameEvent::AcquireStale) => {
                self.stale = false;
                FrameAction::RebuildSwapchain { extent: self.extent }
            },
            (FramePhase::Acquire, FrameEvent::AcquireOk { image_index }) => {
                self.phase = FramePhase::WaitFence { image_index };
                FrameAction::WaitFence { frame: self.current_frame }
            },
            (FramePhase::WaitFence { image_index }, FrameEvent::FenceWaited) => {
                self.phase = FramePhase::TickCleanup { image_index };
                FrameAction::TickCleanup
            },
            (FramePhase::TickCleanup { image_index }, FrameEvent::CleanupTicked) => {
                self.phase = FramePhase::Record { image_index };
                FrameAction::RecordCommands { frame: self.current_frame, image_index }
            },
            (FramePhase::Record { image_index }, FrameEvent::CommandsRecorded) => {
                self.phase = FramePhase::Submit { image_index };
                FrameAction::SubmitCommands { frame: self.current_frame, image_index }
            },
            (FramePhase::Submit { image_index }, FrameEvent::Submitted) => {
                self.phase = FramePhase::Present { image_index };
                FrameAction::PresentImage { image_index }
            },
            (FramePhase::Present { .. }, FrameEvent::PresentOk) => {
                self.phase = FramePhase::Acquire;
                self.advance_frame();
                FrameAction::FrameComplete
            },
            (FramePhase::Present { .. }, FrameEvent::PresentStale) => {
                self.phase = FramePhase::Acquire;
                self.stale = true;
                self.advance_frame();
                FrameAction::FrameComplete
            },
            _ => {
                proof {
                    assert(false);
                }
                FrameAction::FrameComplete
            },
        }
    }
}

proof fn lemma_wrap_succ(current: int, n: int)
    requires
        0 <= current < n,
    ensures
        0 <= (current + 1) % n < n,
        (current + 1) % n == if current + 1 == n {
            0int
        } else {
            current + 1
        },
{
    if current + 1 == n {
        vstd::arithmetic::div_mod::lemma_mod_self_0(n);
    } else {
        vstd::arithmetic::div_mod::lemma_small_mod((current + 1) as nat, n as nat);
    }
}

// ---------------------------------------------------------------------------
// Staleness-recovery law. `step` follows `spec_step` exactly, so the law
// carries over to any run of the executable machine.
// ---------------------------------------------------------------------------

/// Staleness-recovery law: a stale report never aborts the loop (there is
/// no aborting action; fatal device errors are outside the machine), and
/// no acquisition is retried without an intervening rebuild:
/// a stale acquisition is answered by a rebuild of the swapchain, after
/// which the very next step acquires again; a stale presentation completes
/// the frame, and the following frame rebuilds before it acquires.
pub proof fn lemma_staleness_recovery(s: FrameCycler)
    requires
        s.wf(),
    ensures
        s.phase is Acquire ==> {
            let (s1, a1) = s.spec_step(FrameEvent::AcquireStale);
            &&& a1 == FrameAction::RebuildSwapchain { extent: s.extent }
            &&& s1.wf()
            &&& s1.accepts(FrameEvent::SwapchainRebuilt)
            &&& s1.spec_step(FrameEvent::SwapchainRebuilt).1 == FrameAction::AcquireImage
        },
        s.phase matches FramePhase::Present { .. } ==> {
            let (s1, a1) = s.spec_step(FrameEvent::PresentStale);
            let (s2, a2) = s1.spec_step(FrameEvent::Start);
            &&& a1 == FrameAction::FrameComplete
            &&& s1.wf()
            &&& s1.accepts(FrameEvent::Start)
            &&& a2 == FrameAction::RebuildSwapchain { extent: s.extent }
            &&& s2.wf()
            &&& s2.spec_step(FrameEvent::SwapchainRebuilt).1 == FrameAction::AcquireImage
        },
{
    if s.phase matches FramePhase::Present { .. } {
        let (s1, a1) = s.spec_step(FrameEvent::PresentStale);
        lemma_wrap_succ(s.current_frame as int, s.num_frames as int);
        assert(s1.wf());
    }
}

} // verus!

use favilla::frame_cycler::{FrameAction, FrameCycler, FrameEvent, SurfaceExtent};

fn extent(width: u32, height: u32) -> SurfaceExtent {
    SurfaceExtent { width, height }
}

#[test]
fn plain_frame_runs_the_full_sequence() {
    let mut cycler = FrameCycler::new(2, extent(800, 600));
    assert_eq!(cycler.current_frame, 0);

    assert_eq!(cycler.step(FrameEvent::Start), FrameAction::AcquireImage);
    assert_eq!(
        cycler.step(FrameEvent::AcquireOk { image_index: 1 }),
        FrameAction::WaitFence { frame: 0 }
    );
    assert_eq!(cycler.step(FrameEvent::FenceWaited), FrameAction::TickCleanup);
    assert_eq!(
        cycler.step(FrameEvent::CleanupTicked),
        FrameAction::RecordCommands { frame: 0, image_index: 1 }
    );
    assert_eq!(
        cycler.step(FrameEvent::CommandsRecorded),
        FrameAction::SubmitCommands { frame: 0, image_index: 1 }
    );
    assert_eq!(
        cycler.step(FrameEvent::Submitted),
        FrameAction::PresentImage { image_index: 1 }
    );
    assert_eq!(cycler.step(FrameEvent::PresentOk), FrameAction::FrameComplete);
    assert_eq!(cycler.current_frame, 1);
}

#[test]
fn stale_acquire_rebuilds_then_retries() {
    let mut cycler = FrameCycler::new(2, extent(800, 600));
    assert_eq!(cycler.step(FrameEvent::Start), FrameAction::AcquireImage);

    // staleness never aborts: it demands a rebuild...
    assert_eq!(
        cycler.step(FrameEvent::AcquireStale),
        FrameAction::RebuildSwapchain { extent: extent(800, 600) }
    );
    // ...and the very next step acquires again
    assert_eq!(cycler.step(FrameEvent::SwapchainRebuilt), FrameAction::AcquireImage);
    // a second stale report rebuilds again before the next attempt
    assert_eq!(
        cycler.step(FrameEvent::AcquireStale),
        FrameAction::RebuildSwapchain { extent: extent(800, 600) }
    );
    assert_eq!(cycler.step(FrameEvent::SwapchainRebuilt), FrameAction::AcquireImage);
}

#[test]
fn stale_present_completes_frame_and_rebuilds_next() {
    let mut cycler = FrameCycler::new(2, extent(640, 480));
    cycler.step(FrameEvent::Start);
    cycler.step(FrameEvent::AcquireOk { image_index: 0 });
    cycler.step(FrameEvent::FenceWaited);
    cycler.step(FrameEvent::CleanupTicked);
    cycler.step(FrameEvent::CommandsRecorded);
    cycler.step(FrameEvent::Submitted);

    // a stale present does not abort the frame
    assert_eq!(cycler.step(FrameEvent::PresentStale), FrameAction::FrameComplete);
    assert_eq!(cycler.current_frame, 1);

    // the next frame rebuilds before acquiring
    assert_eq!(
        cycler.step(FrameEvent::Start),
        FrameAction::RebuildSwapchain { extent: extent(640, 480) }
    );
    assert_eq!(cycler.step(FrameEvent::SwapchainRebuilt), FrameAction::AcquireImage);
}

#[test]
fn resize_marks_swapchain_stale() {
    let mut cycler = FrameCycler::new(3, extent(800, 600));
    cycler.notify_resize(extent(1024, 768));
    assert_eq!(
        cycler.step(FrameEvent::Start),
        FrameAction::RebuildSwapchain { extent: extent(1024, 768) }
    );
    assert_eq!(cycler.step(FrameEvent::SwapchainRebuilt), FrameAction::AcquireImage);
}

#[test]
fn advance_frame_wraps_around() {
    let mut cycler = FrameCycler::new(2, extent(1, 1));
    assert_eq!(cycler.current_frame, 0);
    cycler.advance_frame();
    assert_eq!(cycler.current_frame, 1);
    cycler.advance_frame();
    assert_eq!(cycler.current_frame, 0);
}

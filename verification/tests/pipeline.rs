use capture_viewer::geometry::{Offset, Size};
use capture_viewer::globals::Global;
use capture_viewer::layout::{ShmLayout, DRM_FORMAT_XRGB8888};
use capture_viewer::pipeline::{CaptureStep, FrameStep, Pipeline, SessionStep};
use capture_viewer::pool::{Buffer, BufferState};
use capture_viewer::session::{
    Attach, Backing, CaptureOutcome, Fatal, FrameEvent, RenderPlan, SessionEvent, SessionPhase,
};

fn small() -> Size {
    Size::new(640, 480)
}

fn small_shm() -> Option<Backing> {
    Some(Backing::Shm(ShmLayout { len: 1_228_800, stride: 2560 }))
}

/// A pipeline that is set up for host-memory buffers of 640 by 480.
fn streaming(fullscreen: bool) -> Pipeline {
    let mut p = Pipeline::new(fullscreen, false);
    p.bind(Global::WlShm);
    p.setup();
    assert!(matches!(
        p.session_event(SessionEvent::BufferSize { width: 640, height: 480 }),
        SessionStep::Updated
    ));
    p
}

fn capture(step: SessionStep) -> CaptureStep {
    match step {
        SessionStep::Capture(capture) => capture,
        other => panic!("expected an attempt to capture, got {other:?}"),
    }
}

fn completed(step: FrameStep) -> (RenderPlan, CaptureStep) {
    match step {
        FrameStep::Completed { render, next } => (render, next),
        other => panic!("expected a completed frame, got {other:?}"),
    }
}

fn failed(step: FrameStep) -> (u32, CaptureStep) {
    match step {
        FrameStep::Failed { reason, next } => (reason, next),
        other => panic!("expected a failed frame, got {other:?}"),
    }
}

#[test]
fn new_pipeline() {
    let p = Pipeline::new(true, false);
    assert!(p.running());
    assert_eq!(p.frame(), None);
    assert_eq!(p.phase(), SessionPhase::Negotiating);
    assert_eq!(p.capture_size(), Size::new(0, 0));
    assert_eq!(p.buffer_count(), 0);
    assert_eq!(p.device(), 0);
    assert!(p.modifiers().is_empty());
    assert!(!p.globals().wl_shm);
    assert!(!p.established());
    assert_eq!(p.window(), Size::new(1, 1));
    assert_eq!(p.video_size(), Size::new(1, 1));
}

#[test]
fn setup_and_configure_are_recorded() {
    let mut p = Pipeline::new(false, false);
    p.setup();
    assert!(p.established());
    p.configure(1280, 720);
    assert_eq!(p.window(), Size::new(1280, 720));
    p.configure(0, 0);
    assert_eq!(p.window(), Size::new(0, 0));
}

#[test]
fn video_size_follows_the_attached_buffer() {
    let mut p = streaming(false);
    capture(p.session_event(SessionEvent::Done));
    assert_eq!(p.video_size(), Size::new(1, 1));
    completed(p.frame_event(0, FrameEvent::Ready));
    assert_eq!(p.video_size(), small());
}

#[test]
fn nothing_is_captured_before_setup() {
    let mut p = Pipeline::new(false, false);
    p.bind(Global::WlShm);
    p.session_event(SessionEvent::BufferSize { width: 640, height: 480 });
    let step = capture(p.session_event(SessionEvent::Done));
    assert_eq!(step.outcome, CaptureOutcome::Idle);
    assert!(step.dropped.is_empty());
    assert_eq!(p.frame(), None);
    assert_eq!(p.buffer_count(), 0);
    assert_eq!(p.render_frame(), None);
    assert!(matches!(p.frame_event(0, FrameEvent::Ready), FrameStep::Ignored));
    let step = p.capture_frame();
    assert_eq!(step.outcome, CaptureOutcome::Idle);
}

#[test]
fn nothing_is_captured_at_an_empty_size() {
    let mut p = Pipeline::new(false, false);
    p.bind(Global::WlShm);
    p.setup();
    assert_eq!(p.capture_frame().outcome, CaptureOutcome::Idle);
    p.session_event(SessionEvent::BufferSize { width: 640, height: 0 });
    assert_eq!(p.capture_frame().outcome, CaptureOutcome::Idle);
    p.session_event(SessionEvent::BufferSize { width: 0, height: 480 });
    assert_eq!(p.capture_frame().outcome, CaptureOutcome::Idle);
    // A width beyond `i32::MAX` reads as negative.
    p.session_event(SessionEvent::BufferSize { width: 0x8000_0000, height: 480 });
    assert_eq!(p.capture_size(), Size::new(i32::MIN, 480));
    assert_eq!(p.capture_frame().outcome, CaptureOutcome::Idle);
    assert_eq!(p.phase(), SessionPhase::Negotiating);
}

#[test]
fn done_starts_the_first_frame_on_a_new_buffer() {
    let mut p = streaming(false);
    let step = capture(p.session_event(SessionEvent::Done));
    assert!(step.dropped.is_empty());
    assert_eq!(
        step.outcome,
        CaptureOutcome::Started { buffer: 0, size: small(), create: small_shm() }
    );
    assert_eq!(p.frame(), Some(0));
    assert_eq!(p.phase(), SessionPhase::Streaming);
    assert_eq!(p.buffer(0), Some(Buffer { id: 0, size: small(), state: BufferState::Held }));
}

#[test]
fn no_second_frame_while_one_is_outstanding() {
    let mut p = streaming(false);
    capture(p.session_event(SessionEvent::Done));
    for _ in 0..5 {
        let step = capture(p.session_event(SessionEvent::Done));
        assert_eq!(step.outcome, CaptureOutcome::Idle);
        assert_eq!(p.capture_frame().outcome, CaptureOutcome::Idle);
    }
    assert_eq!(p.frame(), Some(0));
    assert_eq!(p.buffer_count(), 1);
}

#[test]
fn ready_shows_the_buffer_and_starts_the_next_frame() {
    let mut p = streaming(false);
    capture(p.session_event(SessionEvent::Done));
    let (render, next) = completed(p.frame_event(0, FrameEvent::Ready));
    assert_eq!(
        render,
        RenderPlan {
            attach: Some(Attach { buffer: 0, size: small() }),
            position: None,
            video_destination: None,
            root_destination: Some(Size::new(1, 1)),
        }
    );
    assert!(next.dropped.is_empty());
    assert_eq!(
        next.outcome,
        CaptureOutcome::Started { buffer: 1, size: small(), create: small_shm() }
    );
    assert_eq!(p.frame(), Some(1));
    assert_eq!(p.buffer(0).unwrap().state, BufferState::ContentReady);
    assert_eq!(p.buffer(1).unwrap().state, BufferState::Held);
}

#[test]
fn released_buffer_is_captured_into_again() {
    let mut p = streaming(false);
    capture(p.session_event(SessionEvent::Done));
    completed(p.frame_event(0, FrameEvent::Ready));
    p.buffer_released(Some(0));
    assert_eq!(p.buffer(0).unwrap().state, BufferState::Released);
    let (render, next) = completed(p.frame_event(1, FrameEvent::Ready));
    assert_eq!(render.attach, Some(Attach { buffer: 1, size: small() }));
    assert_eq!(next.outcome, CaptureOutcome::Started { buffer: 0, size: small(), create: None });
    assert_eq!(p.buffer(0), Some(Buffer { id: 0, size: small(), state: BufferState::Held }));
    assert_eq!(p.buffer_count(), 2);
    // And round again: two buffers are all that a steady stream needs.
    p.buffer_released(Some(1));
    let (_, next) = completed(p.frame_event(0, FrameEvent::Ready));
    assert_eq!(next.outcome, CaptureOutcome::Started { buffer: 1, size: small(), create: None });
    assert_eq!(p.buffer_count(), 2);
}

#[test]
fn release_signal_without_buffer_or_for_unknown_buffer() {
    let mut p = streaming(false);
    capture(p.session_event(SessionEvent::Done));
    p.buffer_released(None);
    p.buffer_released(Some(17));
    assert_eq!(p.buffer(0).unwrap().state, BufferState::Held);
    assert_eq!(p.buffer_count(), 1);
}

#[test]
fn failed_frame_is_retried_at_once() {
    let mut p = streaming(false);
    capture(p.session_event(SessionEvent::Done));
    let (reason, next) = failed(p.frame_event(0, FrameEvent::Failed { reason: 2 }));
    assert_eq!(reason, 2);
    assert_eq!(
        next.outcome,
        CaptureOutcome::Started { buffer: 1, size: small(), create: small_shm() }
    );
    assert_eq!(p.frame(), Some(1));
    // The buffer of the failed frame was never given back: it stays held.
    assert_eq!(p.buffer(0).unwrap().state, BufferState::Held);
}

#[test]
fn one_frame_at_most_through_a_burst_of_failures() {
    let mut p = streaming(false);
    let mut started = 0;
    let mut discarded = 0;
    if let CaptureOutcome::Started { .. } = capture(p.session_event(SessionEvent::Done)).outcome {
        started += 1;
    }
    for round in 0..50u32 {
        let bound = p.frame().unwrap();
        // Notifications for frames that are not outstanding do nothing.
        assert!(matches!(p.frame_event(bound + 1, FrameEvent::Ready), FrameStep::Ignored));
        assert!(matches!(p.frame_event(bound, FrameEvent::Other), FrameStep::Ignored));
        let next = if round % 3 == 0 {
            completed(p.frame_event(bound, FrameEvent::Ready)).1
        } else {
            failed(p.frame_event(bound, FrameEvent::Failed { reason: round })).1
        };
        discarded += 1;
        if let CaptureOutcome::Started { .. } = next.outcome {
            started += 1;
        }
        // A repeated notification of the frame that is gone does nothing.
        assert!(matches!(p.frame_event(bound, FrameEvent::Ready), FrameStep::Ignored));
        if let CaptureOutcome::Started { .. } = capture(p.session_event(SessionEvent::Done)).outcome
        {
            started += 1;
        }
        assert_eq!(started - discarded, 1);
        assert!(p.frame().is_some());
        if round % 2 == 0 {
            p.buffer_released(Some(bound));
        }
    }
}

#[test]
fn frame_event_for_another_buffer_is_ignored() {
    let mut p = streaming(false);
    capture(p.session_event(SessionEvent::Done));
    assert!(matches!(p.frame_event(5, FrameEvent::Ready), FrameStep::Ignored));
    assert!(matches!(p.frame_event(5, FrameEvent::Failed { reason: 1 }), FrameStep::Ignored));
    assert!(matches!(p.frame_event(0, FrameEvent::Other), FrameStep::Ignored));
    assert_eq!(p.frame(), Some(0));
    assert_eq!(p.buffer(0).unwrap().state, BufferState::Held);
}

#[test]
fn new_size_takes_effect_at_the_next_capture() {
    let mut p = streaming(false);
    capture(p.session_event(SessionEvent::Done));
    completed(p.frame_event(0, FrameEvent::Ready));
    p.buffer_released(Some(0));
    // Buffer 1 is under capture when the size changes.
    p.session_event(SessionEvent::BufferSize { width: 800, height: 600 });
    assert_eq!(p.buffer_count(), 2);
    assert_eq!(p.buffer(1).unwrap().size, small());
    let (render, next) = completed(p.frame_event(1, FrameEvent::Ready));
    assert_eq!(render.attach, Some(Attach { buffer: 1, size: small() }));
    assert_eq!(next.dropped, vec![0, 1]);
    assert_eq!(
        next.outcome,
        CaptureOutcome::Started {
            buffer: 2,
            size: Size::new(800, 600),
            create: Some(Backing::Shm(ShmLayout { len: 1_920_000, stride: 3200 })),
        }
    );
    assert_eq!(p.buffer_count(), 1);
    assert_eq!(p.buffer(0), None);
    assert_eq!(p.buffer(1), None);
    assert_eq!(
        p.buffer(2),
        Some(Buffer { id: 2, size: Size::new(800, 600), state: BufferState::Held })
    );
}

#[test]
fn capture_without_shm_service_is_fatal() {
    let mut p = Pipeline::new(false, false);
    p.setup();
    p.session_event(SessionEvent::BufferSize { width: 640, height: 480 });
    let step = p.capture_frame();
    assert_eq!(step.outcome, CaptureOutcome::Failed(Fatal::MissingGlobal(Global::WlShm)));
    assert_eq!(p.frame(), None);
    assert_eq!(p.buffer_count(), 0);
}

#[test]
fn capture_of_too_large_host_buffer_is_fatal() {
    let mut p = Pipeline::new(false, false);
    p.bind(Global::WlShm);
    p.setup();
    p.session_event(SessionEvent::BufferSize { width: 32768, height: 16384 });
    let step = p.capture_frame();
    assert_eq!(step.outcome, CaptureOutcome::Failed(Fatal::BufferTooLarge));
    assert_eq!(p.frame(), None);
}

#[test]
fn hardware_buffers_need_an_opened_device() {
    let mut p = Pipeline::new(false, true);
    p.bind(Global::ZwpLinuxDmabufV1);
    p.setup();
    p.session_event(SessionEvent::BufferSize { width: 640, height: 480 });
    assert_eq!(p.capture_frame().outcome, CaptureOutcome::Failed(Fatal::NoAllocator));
    let step = p.session_event(SessionEvent::DmabufDevice { device: 0xe280 });
    assert!(matches!(step, SessionStep::OpenDevice { device: 0xe280 }));
    assert_eq!(p.device(), 0xe280);
    assert_eq!(
        p.capture_frame().outcome,
        CaptureOutcome::Started { buffer: 0, size: small(), create: Some(Backing::Dmabuf) }
    );
}

#[test]
fn hardware_buffers_need_the_import_service() {
    let mut p = Pipeline::new(false, true);
    p.setup();
    p.session_event(SessionEvent::BufferSize { width: 640, height: 480 });
    p.session_event(SessionEvent::DmabufDevice { device: 1 });
    assert_eq!(
        p.capture_frame().outcome,
        CaptureOutcome::Failed(Fatal::MissingGlobal(Global::ZwpLinuxDmabufV1))
    );
}

#[test]
fn hardware_buffers_of_any_size() {
    // No host memory is mapped, so the limit on its length does not apply.
    let mut p = Pipeline::new(false, true);
    p.bind(Global::ZwpLinuxDmabufV1);
    p.setup();
    p.session_event(SessionEvent::DmabufDevice { device: 1 });
    p.session_event(SessionEvent::BufferSize { width: 32768, height: 16384 });
    assert_eq!(
        p.capture_frame().outcome,
        CaptureOutcome::Started {
            buffer: 0,
            size: Size::new(32768, 16384),
            create: Some(Backing::Dmabuf)
        }
    );
}

#[test]
fn device_is_opened_once_and_only_for_hardware_buffers() {
    let mut p = Pipeline::new(false, true);
    assert!(matches!(
        p.session_event(SessionEvent::DmabufDevice { device: 5 }),
        SessionStep::OpenDevice { device: 5 }
    ));
    assert!(matches!(
        p.session_event(SessionEvent::DmabufDevice { device: 6 }),
        SessionStep::Updated
    ));
    assert_eq!(p.device(), 6);
    let mut host = Pipeline::new(false, false);
    assert!(matches!(
        host.session_event(SessionEvent::DmabufDevice { device: 5 }),
        SessionStep::Updated
    ));
    assert_eq!(host.device(), 5);
}

#[test]
fn device_from_raw_bytes() {
    let mut p = Pipeline::new(false, true);
    let number: u64 = 0xe2_0000_0080;
    match p.dmabuf_device(&number.to_ne_bytes()) {
        Some(SessionStep::OpenDevice { device }) => assert_eq!(device, number),
        other => panic!("expected a device to open, got {other:?}"),
    }
    assert_eq!(p.device(), number);
    assert!(p.dmabuf_device(&[1, 2, 3]).is_none());
    assert_eq!(p.device(), number);
    assert!(matches!(p.dmabuf_device(&7u64.to_ne_bytes()), Some(SessionStep::Updated)));
    assert_eq!(p.device(), 7);
}

#[test]
fn modifiers_of_the_format_in_use_replace_the_old_ones() {
    let mut p = Pipeline::new(false, true);
    let step = p.session_event(SessionEvent::DmabufFormat {
        format: DRM_FORMAT_XRGB8888,
        modifiers: vec![1, 2, 3],
    });
    assert!(matches!(step, SessionStep::Updated));
    assert_eq!(p.modifiers(), &vec![1, 2, 3]);
    let step = p.session_event(SessionEvent::DmabufFormat { format: 0x3432_5241, modifiers: vec![9] });
    assert!(matches!(step, SessionStep::Ignored));
    assert_eq!(p.modifiers(), &vec![1, 2, 3]);
    let step =
        p.session_event(SessionEvent::DmabufFormat { format: DRM_FORMAT_XRGB8888, modifiers: vec![] });
    assert!(matches!(step, SessionStep::Updated));
    assert!(p.modifiers().is_empty());
}

#[test]
fn modifiers_from_raw_bytes() {
    let mut p = Pipeline::new(false, true);
    let mut bytes = Vec::new();
    bytes.extend_from_slice(&0x0100_0000_0000_0001u64.to_ne_bytes());
    bytes.extend_from_slice(&0u64.to_ne_bytes());
    assert!(matches!(p.dmabuf_format(DRM_FORMAT_XRGB8888, &bytes), SessionStep::Updated));
    assert_eq!(p.modifiers(), &vec![0x0100_0000_0000_0001, 0]);
    assert!(matches!(p.dmabuf_format(0, &[1, 2, 3, 4, 5, 6, 7, 8]), SessionStep::Ignored));
    assert_eq!(p.modifiers(), &vec![0x0100_0000_0000_0001, 0]);
}

#[test]
fn stopped_ends_the_session() {
    let mut p = streaming(false);
    capture(p.session_event(SessionEvent::Done));
    assert!(matches!(p.session_event(SessionEvent::Stopped), SessionStep::Stopped));
    assert!(!p.running());
    assert_eq!(p.phase(), SessionPhase::Stopped);
    // The outstanding frame may still come to its end.
    completed(p.frame_event(0, FrameEvent::Ready));
    assert_eq!(p.phase(), SessionPhase::Stopped);
}

#[test]
fn other_session_events_are_ignored() {
    let mut p = streaming(false);
    assert!(matches!(p.session_event(SessionEvent::Other), SessionStep::Ignored));
    assert_eq!(p.capture_size(), small());
    assert_eq!(p.frame(), None);
}

#[test]
fn close_stops_the_program() {
    let mut p = streaming(false);
    assert!(p.running());
    p.close();
    assert!(!p.running());
    assert_eq!(p.phase(), SessionPhase::Negotiating);
}

#[test]
fn render_without_new_buffer_attaches_nothing() {
    let mut p = streaming(true);
    p.configure(800, 600);
    let plan = p.render_frame().unwrap();
    // The video is one pixel until a buffer was shown.
    assert_eq!(
        plan,
        RenderPlan {
            attach: None,
            position: Some(Offset { x: 100, y: 0 }),
            video_destination: Some(Size::new(600, 600)),
            root_destination: Some(Size::new(800, 600)),
        }
    );
}

#[test]
fn render_attaches_each_buffer_once() {
    let mut p = streaming(false);
    capture(p.session_event(SessionEvent::Done));
    let (render, _) = completed(p.frame_event(0, FrameEvent::Ready));
    assert_eq!(render.attach, Some(Attach { buffer: 0, size: small() }));
    let again = p.render_frame().unwrap();
    assert_eq!(again.attach, None);
    // Drawing changes no buffer's state.
    assert_eq!(p.buffer(0).unwrap().state, BufferState::ContentReady);
    assert_eq!(p.buffer(1).unwrap().state, BufferState::Held);
}

#[test]
fn render_stretched_video() {
    let mut p = Pipeline::new(true, false);
    p.bind(Global::WlShm);
    p.setup();
    p.configure(1920, 1080);
    p.session_event(SessionEvent::BufferSize { width: 640, height: 480 });
    capture(p.session_event(SessionEvent::Done));
    let (render, _) = completed(p.frame_event(0, FrameEvent::Ready));
    assert_eq!(
        render,
        RenderPlan {
            attach: Some(Attach { buffer: 0, size: small() }),
            position: Some(Offset { x: 240, y: 0 }),
            video_destination: Some(Size::new(1440, 1080)),
            root_destination: Some(Size::new(1920, 1080)),
        }
    );
    // The window shrinks: the video keeps its size and is placed anew.
    p.configure(320, 480);
    let plan = p.render_frame().unwrap();
    assert_eq!(
        plan,
        RenderPlan {
            attach: None,
            position: Some(Offset { x: 0, y: 120 }),
            video_destination: Some(Size::new(320, 240)),
            root_destination: Some(Size::new(320, 480)),
        }
    );
}

#[test]
fn render_in_an_empty_window() {
    let mut p = streaming(true);
    p.configure(0, 0);
    let plan = p.render_frame().unwrap();
    assert_eq!(
        plan,
        RenderPlan {
            attach: None,
            position: Some(Offset { x: 0, y: 0 }),
            video_destination: None,
            root_destination: None,
        }
    );
    p.configure(-4, 10);
    let plan = p.render_frame().unwrap();
    assert_eq!(
        plan,
        RenderPlan { attach: None, position: None, video_destination: None, root_destination: None }
    );
}

#[test]
fn render_unstretched_video_is_not_placed() {
    let mut p = streaming(false);
    p.configure(1920, 1080);
    let plan = p.render_frame().unwrap();
    assert_eq!(
        plan,
        RenderPlan {
            attach: None,
            position: None,
            video_destination: None,
            root_destination: Some(Size::new(1920, 1080)),
        }
    );
}

#[test]
fn buffer_states_follow_the_lifecycle() {
    let mut p = streaming(false);
    let mut last: Vec<Option<BufferState>> = vec![None; 8];
    let mut check = |p: &Pipeline, submitted: Option<u64>, completed: Option<u64>, released: Option<u64>| {
        for id in 0..8u64 {
            let now = p.buffer(id).map(|b| b.state);
            let before = last[id as usize];
            if now != before {
                match now {
                    Some(BufferState::Held) => {
                        assert!(before.is_none() || before == Some(BufferState::Released));
                        assert_eq!(submitted, Some(id));
                    }
                    Some(BufferState::ContentReady) => {
                        assert_eq!(before, Some(BufferState::Held));
                        assert_eq!(completed, Some(id));
                    }
                    Some(BufferState::Released) => assert_eq!(released, Some(id)),
                    None => {}
                }
            }
            last[id as usize] = now;
        }
    };
    let started = |step: &CaptureStep| match step.outcome {
        CaptureOutcome::Started { buffer, .. } => Some(buffer),
        _ => None,
    };
    let first = capture(p.session_event(SessionEvent::Done));
    check(&p, started(&first), None, None);
    for round in 0..12 {
        let bound = p.frame().unwrap();
        if round % 4 == 3 {
            let (_, next) = failed(p.frame_event(bound, FrameEvent::Failed { reason: 0 }));
            check(&p, started(&next), None, None);
        } else {
            let (_, next) = completed(p.frame_event(bound, FrameEvent::Ready));
            check(&p, started(&next), Some(bound), None);
            if round > 0 && bound > 0 {
                p.buffer_released(Some(bound - 1));
                check(&p, None, None, Some(bound - 1));
            }
        }
        if p.buffer_count() > 6 {
            break;
        }
    }
}

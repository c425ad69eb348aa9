use capture_viewer::geometry::Size;
use capture_viewer::globals::Global;
use capture_viewer::pipeline::{FrameStep, Pipeline, Reaction, SessionStep};
use capture_viewer::pool::BufferState;
use capture_viewer::session::{CaptureOutcome, Event, FrameEvent, SessionEvent};

/// A fixed sequence of numbers that looks random.
struct Numbers(u64);

impl Numbers {
    fn next(&mut self, below: u64) -> u64 {
        self.0 = self.0.wrapping_mul(6364136223846793005).wrapping_add(1442695040888963407);
        (self.0 >> 33) % below
    }
}

fn event(numbers: &mut Numbers, bound: Option<u64>) -> Event {
    match numbers.next(12) {
        0 => Event::Session(SessionEvent::Done),
        1 => Event::Session(SessionEvent::BufferSize {
            width: [0, 320, 640][numbers.next(3) as usize],
            height: [240, 480][numbers.next(2) as usize],
        }),
        2 | 3 => Event::Frame {
            buffer: bound.unwrap_or(numbers.next(6)),
            event: FrameEvent::Ready,
        },
        4 => Event::Frame {
            buffer: bound.unwrap_or(numbers.next(6)),
            event: FrameEvent::Failed { reason: 1 },
        },
        5 => Event::Frame { buffer: numbers.next(40), event: FrameEvent::Ready },
        6 => Event::Frame { buffer: bound.unwrap_or(0), event: FrameEvent::Other },
        7 | 8 => Event::Released(Some(numbers.next(40))),
        9 => Event::Released(None),
        10 => Event::Configure {
            width: numbers.next(2000) as i32 - 10,
            height: numbers.next(2000) as i32 - 10,
        },
        _ => Event::Refresh,
    }
}

fn attempt(reaction: &Reaction) -> Option<CaptureOutcome> {
    match reaction {
        Reaction::Session(SessionStep::Capture(step)) => Some(step.outcome),
        Reaction::Frame(FrameStep::Completed { next, .. }) => Some(next.outcome),
        Reaction::Frame(FrameStep::Failed { next, .. }) => Some(next.outcome),
        _ => None,
    }
}

fn retired(reaction: &Reaction) -> bool {
    matches!(
        reaction,
        Reaction::Frame(FrameStep::Completed { .. }) | Reaction::Frame(FrameStep::Failed { .. })
    )
}

fn states(p: &Pipeline, upto: u64) -> Vec<Option<(Size, BufferState)>> {
    (0..upto).map(|id| p.buffer(id).map(|b| (b.size, b.state))).collect()
}

#[test]
fn long_sequences_keep_one_frame_and_the_lifecycle() {
    for seed in 0..8u64 {
        let mut numbers = Numbers(seed);
        let mut p = Pipeline::new(seed % 2 == 0, false);
        p.handle(Event::Bound(Global::WlShm));
        if seed % 4 != 3 {
            p.handle(Event::Setup);
        }
        let mut started: i64 = 0;
        let mut discarded: i64 = 0;
        let upto = 400;
        let mut before = states(&p, upto);
        for _ in 0..1500 {
            let bound = p.frame();
            let size = p.capture_size();
            let e = event(&mut numbers, bound);
            let released = match &e {
                Event::Released(id) => *id,
                _ => None,
            };
            let completes = match &e {
                Event::Frame { buffer, event: FrameEvent::Ready } if Some(*buffer) == bound => {
                    Some(*buffer)
                }
                _ => None,
            };
            let reaction = p.handle(e);
            let submitted = match attempt(&reaction) {
                Some(CaptureOutcome::Started { buffer, size: started_size, .. }) => {
                    started += 1;
                    assert_eq!(started_size, size);
                    assert_eq!(p.buffer(buffer).unwrap().size, size);
                    assert_eq!(p.frame(), Some(buffer));
                    Some(buffer)
                }
                _ => None,
            };
            if retired(&reaction) {
                discarded += 1;
            }
            // One frame at most, and the count of frames tells which.
            assert_eq!(started - discarded, if p.frame().is_some() { 1 } else { 0 });
            if seed % 4 == 3 {
                assert_eq!(started, 0);
            }
            // Every change of state has its cause in this step.
            let after = states(&p, upto);
            for id in 0..upto {
                let (was, is) = (before[id as usize], after[id as usize]);
                match (was, is) {
                    (Some((old_size, old)), Some((new_size, new))) => {
                        assert_eq!(old_size, new_size);
                        if old != new {
                            match new {
                                BufferState::Held => {
                                    assert_eq!(old, BufferState::Released);
                                    assert_eq!(submitted, Some(id));
                                }
                                BufferState::ContentReady => assert_eq!(completes, Some(id)),
                                BufferState::Released => assert_eq!(released, Some(id)),
                            }
                        }
                    }
                    (None, Some((_, new))) => {
                        assert_eq!(new, BufferState::Held);
                        assert_eq!(submitted, Some(id));
                    }
                    _ => {}
                }
            }
            before = after;
            assert!(p.buffer_count() < upto as usize);
        }
        if seed % 4 != 3 {
            assert!(started > 10);
        }
    }
}

#[test]
fn handle_answers_like_the_handlers() {
    let mut p = Pipeline::new(false, false);
    assert!(matches!(p.handle(Event::Bound(Global::WlShm)), Reaction::Nothing));
    assert!(p.globals().wl_shm);
    assert!(matches!(p.handle(Event::Refresh), Reaction::Render(None)));
    assert!(matches!(p.handle(Event::Setup), Reaction::Nothing));
    assert!(p.established());
    assert!(matches!(p.handle(Event::Refresh), Reaction::Render(Some(_))));
    assert!(matches!(
        p.handle(Event::Session(SessionEvent::BufferSize { width: 4, height: 4 })),
        Reaction::Session(SessionStep::Updated)
    ));
    assert!(matches!(
        p.handle(Event::Session(SessionEvent::Done)),
        Reaction::Session(SessionStep::Capture(_))
    ));
    assert_eq!(p.frame(), Some(0));
    assert!(matches!(
        p.handle(Event::Frame { buffer: 3, event: FrameEvent::Ready }),
        Reaction::Frame(FrameStep::Ignored)
    ));
    assert!(matches!(
        p.handle(Event::Frame { buffer: 0, event: FrameEvent::Ready }),
        Reaction::Frame(FrameStep::Completed { .. })
    ));
    assert!(matches!(p.handle(Event::Released(Some(0))), Reaction::Nothing));
    assert_eq!(p.buffer(0).unwrap().state, BufferState::Released);
    assert!(matches!(p.handle(Event::Configure { width: 30, height: 20 }), Reaction::Nothing));
    assert_eq!(p.window(), Size::new(30, 20));
    assert!(matches!(p.handle(Event::Close), Reaction::Nothing));
    assert!(!p.running());
}

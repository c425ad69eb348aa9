//! What holds of the pipeline over every sequence of notifications.

use vstd::prelude::*;
use crate::geometry::Size;
use crate::find::lemma_first_where;
use crate::pool::{
    all_of_size, is_released, lemma_acquired, lemma_allocated, lemma_position_of_is,
    lemma_pruned_get, lemma_pruned_wf, lemma_reused, lemma_with_state, position_of, Buffer,
    BufferState, PoolView,
};
use crate::pipeline::lemma_capture;
use crate::session::{CaptureOutcome, Event, FrameEvent, PipelineView, SessionEvent};

verus! {

/// The state after a sequence of events was handled, one after the other.
pub open spec fn run(s: PipelineView, events: Seq<Event>) -> PipelineView
    decreases events.len(),
{
    if events.len() == 0 {
        s
    } else {
        run(s, events.drop_last()).step(events.last())
    }
}

/// Number of frames that were started while `events` were handled.
pub open spec fn frames_started(s: PipelineView, events: Seq<Event>) -> int
    decreases events.len(),
{
    if events.len() == 0 {
        0
    } else {
        frames_started(s, events.drop_last()) + if run(s, events.drop_last()).starts_frame(
            events.last(),
        ) {
            1int
        } else {
            0int
        }
    }
}

/// Number of frames that were discarded while `events` were handled.
pub open spec fn frames_retired(s: PipelineView, events: Seq<Event>) -> int
    decreases events.len(),
{
    if events.len() == 0 {
        0
    } else {
        frames_retired(s, events.drop_last()) + if run(s, events.drop_last()).retires_frame(
            events.last(),
        ) {
            1int
        } else {
            0int
        }
    }
}

/// What a notification of a frame does to the invariant and to the number
/// of outstanding frames.
proof fn lemma_frame_event_frames(s: PipelineView, buffer: u64, event: FrameEvent)
    requires
        s.wf(),
    ensures
        s.after_frame_event(buffer, event).wf(),
        s.after_frame_event(buffer, event).established == s.established,
        s.ends_frame(buffer, event) ==> s.outstanding() == 1 && s.after_frame_event(
            buffer,
            event,
        ).outstanding() == (if s.starts_frame(Event::Frame { buffer, event }) {
            1int
        } else {
            0int
        }),
{
    if s.ends_frame(buffer, event) {
        match event {
            FrameEvent::Ready => {
                lemma_with_state(s.pool, buffer, BufferState::ContentReady, buffer);
                let s1 = s.completed(buffer);
                assert(s1.wf());
                let s2 = s1.rendered().0;
                assert(s2.pool == s1.pool && s2.frame is None && s2.established);
                assert(s2.wf());
                lemma_capture(s2);
            },
            _ => {
                let s1 = PipelineView { frame: None, ..s };
                assert(s1.wf());
                lemma_capture(s1);
            },
        }
    }
}

/// What a notification of the session does to the invariant and to the
/// number of outstanding frames.
proof fn lemma_session_event_frames(s: PipelineView, event: SessionEvent)
    requires
        s.wf(),
    ensures
        s.after_session_event(event).wf(),
        s.after_session_event(event).established == s.established,
        s.after_session_event(event).outstanding() == s.outstanding() + (if s.starts_frame(
            Event::Session(event),
        ) {
            1int
        } else {
            0int
        }),
{
    match event {
        SessionEvent::Done => {
            lemma_capture(s);
        },
        _ => {},
    }
}

/// A release signal keeps the invariant and the outstanding frame.
proof fn lemma_release_frames(s: PipelineView, buffer: Option<u64>)
    requires
        s.wf(),
    ensures
        s.after_release(buffer).wf(),
        s.after_release(buffer).frame == s.frame,
        s.after_release(buffer).established == s.established,
{
    if let Some(id) = buffer {
        if let Some(bound) = s.frame {
            lemma_with_state(s.pool, id, BufferState::Released, bound);
        } else {
            lemma_with_state(s.pool, id, BufferState::Released, id);
        }
    }
}

/// Every handler keeps the invariant, and the number of outstanding frames
/// changes by the frames that the handler starts and discards: a frame is
/// started only when none is outstanding or the outstanding one is discarded
/// in the same step.
pub proof fn lemma_step_frames(s: PipelineView, event: Event)
    requires
        s.wf(),
    ensures
        s.step(event).wf(),
        s.step(event).outstanding() == s.outstanding() + (if s.starts_frame(event) {
            1int
        } else {
            0int
        }) - (if s.retires_frame(event) {
            1int
        } else {
            0int
        }),
{
    match event {
        Event::Session(e) => {
            lemma_session_event_frames(s, e);
        },
        Event::Frame { buffer, event } => {
            lemma_frame_event_frames(s, buffer, event);
        },
        Event::Released(buffer) => {
            lemma_release_frames(s, buffer);
        },
        _ => {},
    }
}

/// At most one frame is outstanding, whatever arrives: after any sequence
/// of events the frames started so far are the frames discarded so far and,
/// where one is outstanding, one more.
pub proof fn lemma_one_frame_in_flight(s: PipelineView, events: Seq<Event>)
    requires
        s.wf(),
    ensures
        run(s, events).wf(),
        0 <= run(s, events).outstanding() <= 1,
        s.outstanding() + frames_started(s, events) - frames_retired(s, events) == run(
            s,
            events,
        ).outstanding(),
    decreases events.len(),
{
    if events.len() > 0 {
        lemma_one_frame_in_flight(s, events.drop_last());
        lemma_step_frames(run(s, events.drop_last()), events.last());
    }
}

/// Before the window and the session exist no frame is started, and only
/// the set-up brings them into being: a viewer that ends after listing its
/// sources has captured nothing.
pub proof fn lemma_no_capture_before_setup(s: PipelineView, events: Seq<Event>)
    requires
        s.wf(),
        !s.established,
        forall|i: int| 0 <= i < events.len() ==> !(#[trigger] events[i] is Setup),
    ensures
        !run(s, events).established,
        run(s, events).frame is None,
        frames_started(s, events) == 0,
    decreases events.len(),
{
    if events.len() > 0 {
        let before = events.drop_last();
        assert forall|i: int| 0 <= i < before.len() implies !(#[trigger] before[i] is Setup) by {
            assert(before[i] == events[i]);
        }
        lemma_no_capture_before_setup(s, before);
        lemma_one_frame_in_flight(s, before);
        let mid = run(s, before);
        let e = events.last();
        assert(!(e is Setup)) by {
            assert(events[events.len() - 1] == e);
        }
        match e {
            Event::Session(se) => {},
            Event::Frame { buffer, event } => {},
            _ => {},
        }
    }
}

/// Whenever a frame is started, its buffer has the size that is negotiated
/// at that time, every buffer of another size has left the pool, and the
/// buffer is held.
pub proof fn lemma_started_buffer_has_negotiated_size(s: PipelineView, event: Event, id: u64)
    requires
        s.wf(),
        s.submits(event, id),
    ensures
        s.step(event).frame == Some(id),
        s.step(event).capture_size == s.capture_size,
        s.step(event).pool.get(id) == Some(
            Buffer { id, size: s.capture_size, state: BufferState::Held },
        ),
        all_of_size(s.step(event).pool.buffers, s.capture_size),
{
    match event {
        Event::Session(e) => {
            lemma_capture(s);
        },
        Event::Frame { buffer, event } => {
            match event {
                FrameEvent::Ready => {
                    lemma_with_state(s.pool, buffer, BufferState::ContentReady, buffer);
                    let s2 = s.completed(buffer).rendered().0;
                    assert(s2.pool == s.completed(buffer).pool && s2.frame is None);
                    lemma_capture(s2);
                },
                _ => {
                    lemma_capture(PipelineView { frame: None, ..s });
                },
            }
        },
        _ => {},
    }
}

/// What an attempt to start a capture does to the buffer named `id`: a
/// buffer that stays in the pool keeps its identity and size, and its state
/// changes only if the frame is started on it, from released to held; a
/// buffer that comes into the pool is the new buffer of the frame.
proof fn lemma_capture_lifecycle(s: PipelineView, id: u64)
    requires
        s.wf(),
    ensures
        s.capture().0.pool.get(id) matches Some(b) ==> match s.pool.get(id) {
            Some(a) => {
                &&& b.id == a.id
                &&& b.size == a.size
                &&& b.state != a.state ==> {
                    &&& a.state == BufferState::Released
                    &&& b.state == BufferState::Held
                    &&& s.capture().1 matches CaptureOutcome::Started { buffer, .. }
                    &&& buffer == id
                }
            },
            None => {
                &&& b.state == BufferState::Held
                &&& s.capture().1 matches CaptureOutcome::Started { buffer, .. }
                &&& buffer == id
            },
        },
{
    if s.can_capture() {
        let size = s.capture_size;
        let pruned = s.pool.pruned(size);
        lemma_pruned_wf(s.pool, size);
        lemma_pruned_get(s.pool, size, id);
        lemma_reused(pruned, id);
        lemma_allocated(pruned, size, id);
        if let Some(j) = pruned.reused().1 {
            lemma_pruned_get(s.pool, size, j);
        }
    }
}

/// Every change of a buffer's state has its cause in the same step, and
/// no step changes a buffer's identity or size.
///
/// A buffer becomes held only from released, and only in a step that starts
/// a frame on it. It becomes content-ready only in the step that completes
/// the outstanding frame, which is bound to it. It becomes released only by
/// the signal that names it. So no buffer goes from released to held and on
/// to content-ready without a capture having been submitted on it.
pub proof fn lemma_lifecycle(s: PipelineView, event: Event, id: u64)
    requires
        s.wf(),
        s.pool.get(id) is Some,
        s.step(event).pool.get(id) is Some,
    ensures
        s.step(event).pool.get(id).unwrap().id == s.pool.get(id).unwrap().id,
        s.step(event).pool.get(id).unwrap().size == s.pool.get(id).unwrap().size,
        s.step(event).pool.get(id).unwrap().state != s.pool.get(id).unwrap().state ==> match s.step(
            event,
        ).pool.get(id).unwrap().state {
            BufferState::Held => s.pool.get(id).unwrap().state == BufferState::Released
                && s.submits(event, id),
            BufferState::ContentReady => s.completes(event, id) && s.frame == Some(id),
            BufferState::Released => event == Event::Released(Some(id)),
        },
{
    match event {
        Event::Session(e) => {
            match e {
                SessionEvent::Done => {
                    lemma_capture_lifecycle(s, id);
                },
                _ => {},
            }
        },
        Event::Frame { buffer, event } => {
            lemma_frame_event_lifecycle(s, buffer, event, id);
        },
        Event::Released(buffer) => {
            if let Some(r) = buffer {
                lemma_with_state(s.pool, r, BufferState::Released, id);
            }
        },
        _ => {},
    }
}

/// `lemma_lifecycle` for the notification of a frame.
proof fn lemma_frame_event_lifecycle(s: PipelineView, buffer: u64, event: FrameEvent, id: u64)
    requires
        s.wf(),
        s.pool.get(id) is Some,
        s.after_frame_event(buffer, event).pool.get(id) is Some,
    ensures
        s.after_frame_event(buffer, event).pool.get(id).unwrap().id == s.pool.get(id).unwrap().id,
        s.after_frame_event(buffer, event).pool.get(id).unwrap().size == s.pool.get(
            id,
        ).unwrap().size,
        s.after_frame_event(buffer, event).pool.get(id).unwrap().state != s.pool.get(
            id,
        ).unwrap().state ==> match s.after_frame_event(buffer, event).pool.get(id).unwrap().state {
            BufferState::Held => s.pool.get(id).unwrap().state == BufferState::Released
                && s.submits(Event::Frame { buffer, event }, id),
            BufferState::ContentReady => s.completes(Event::Frame { buffer, event }, id)
                && s.frame == Some(id),
            BufferState::Released => false,
        },
{
    if s.ends_frame(buffer, event) {
        match event {
            FrameEvent::Ready => {
                lemma_with_state(s.pool, buffer, BufferState::ContentReady, id);
                let s1 = s.completed(buffer);
                let s2 = s1.rendered().0;
                assert(s2.pool == s1.pool && s2.frame is None && s2.established);
                assert(s2.wf());
                lemma_capture_lifecycle(s2, id);
            },
            _ => {
                let s1 = PipelineView { frame: None, ..s };
                assert(s1.wf());
                lemma_capture_lifecycle(s1, id);
            },
        }
    }
}

/// A buffer comes into the pool only as the new buffer of a frame that is
/// started in the same step, and it comes in held.
pub proof fn lemma_buffers_are_born_held(s: PipelineView, event: Event, id: u64)
    requires
        s.wf(),
        s.pool.get(id) is None,
        s.step(event).pool.get(id) is Some,
    ensures
        s.step(event).pool.get(id).unwrap().state == BufferState::Held,
        s.submits(event, id),
{
    match event {
        Event::Session(e) => {
            match e {
                SessionEvent::Done => {
                    lemma_capture_lifecycle(s, id);
                },
                _ => {},
            }
        },
        Event::Frame { buffer, event } => {
            if s.ends_frame(buffer, event) {
                match event {
                    FrameEvent::Ready => {
                        lemma_with_state(s.pool, buffer, BufferState::ContentReady, id);
                        let s1 = s.completed(buffer);
                        let s2 = s1.rendered().0;
                        assert(s2.pool == s1.pool && s2.frame is None && s2.established);
                        assert(s2.wf());
                        lemma_capture_lifecycle(s2, id);
                    },
                    _ => {
                        let s1 = PipelineView { frame: None, ..s };
                        assert(s1.wf());
                        lemma_capture_lifecycle(s1, id);
                    },
                }
            }
        },
        Event::Released(buffer) => {
            if let Some(r) = buffer {
                lemma_with_state(s.pool, r, BufferState::Released, id);
            }
        },
        _ => {},
    }
}

/// A buffer that the display gives back can be handed out again: acquiring
/// its size after the release hands out a released buffer of the pool, held
/// from then on and of exactly that size, and creates nothing. If no other
/// buffer of that size was released, the buffer handed out is the one that
/// was given back. Nothing is promised of what the buffer holds.
pub proof fn lemma_released_buffer_is_reused(pool: PoolView, id: u64, size: Size)
    requires
        pool.wf(),
        pool.get(id) matches Some(b) && b.size == size,
    ensures
        pool.with_state(id, BufferState::Released).acquired(size).1 is Reused,
        pool.with_state(id, BufferState::Released).acquired(size).0.next_id == pool.next_id,
        ({
            let taken = pool.with_state(id, BufferState::Released).acquired(size).1->Reused_id;
            &&& pool.has(taken)
            &&& pool.get(taken).unwrap().size == size
            &&& pool.with_state(id, BufferState::Released).acquired(size).0.get(taken) == Some(
                Buffer { id: taken, size, state: BufferState::Held },
            )
            &&& (forall|other: u64|
                other != id && pool.get(other) is Some ==> !(#[trigger] pool.get(
                    other,
                ).unwrap().state == BufferState::Released && pool.get(other).unwrap().size
                    == size)) ==> taken == id
        }),
{
    let given_back = pool.with_state(id, BufferState::Released);
    lemma_with_state(pool, id, BufferState::Released, id);
    let pruned = given_back.pruned(size);
    lemma_pruned_wf(given_back, size);
    lemma_pruned_get(given_back, size, id);
    // The buffer that was given back is in the pruned pool and released, so
    // there is a first released buffer.
    let at = position_of(pruned.buffers, id).unwrap();
    lemma_position_of_is(pruned, at);
    assert(is_released()(pruned.buffers[at]));
    lemma_first_where(pruned.buffers, is_released());
    lemma_acquired(given_back, size);
    let taken = given_back.acquired(size).1->Reused_id;
    lemma_with_state(pool, id, BufferState::Released, taken);
    lemma_reused(pruned, taken);
}

/// Once the display has given a buffer of the negotiated size back, the
/// next capture that can be started is started on a buffer of the pool:
/// nothing is created for it.
pub proof fn lemma_release_then_capture_reuses(s: PipelineView, id: u64)
    requires
        s.wf(),
        s.can_capture(),
        s.pool.get(id) matches Some(b) && b.size == s.capture_size,
    ensures
        s.after_release(Some(id)).capture().1 matches CaptureOutcome::Started {
            buffer,
            size,
            create,
        } && create is None && size == s.capture_size && s.pool.has(buffer),
{
    lemma_released_buffer_is_reused(s.pool, id, s.capture_size);
    let given_back = s.pool.with_state(id, BufferState::Released);
    lemma_with_state(s.pool, id, BufferState::Released, id);
    lemma_acquired(given_back, s.capture_size);
}

/// The state after the first `k + 1` events is the state after the first
/// `k`, one step on.
proof fn lemma_run_step(s: PipelineView, events: Seq<Event>, k: int)
    requires
        0 <= k < events.len(),
    ensures
        run(s, events.take(k + 1)) == run(s, events.take(k)).step(events[k]),
{
    let upto = events.take(k + 1);
    assert(upto.drop_last() =~= events.take(k));
    assert(upto.last() == events[k]);
}

/// Over every sequence of events: whenever a frame is started, its buffer
/// has the size that is negotiated at that moment, is held, and no buffer of
/// another size is left in the pool.
pub proof fn lemma_every_started_frame_fits(
    s: PipelineView,
    events: Seq<Event>,
    k: int,
    id: u64,
)
    requires
        s.wf(),
        0 <= k < events.len(),
        run(s, events.take(k)).submits(events[k], id),
    ensures
        run(s, events.take(k + 1)).frame == Some(id),
        run(s, events.take(k + 1)).pool.get(id) == Some(
            Buffer { id, size: run(s, events.take(k)).capture_size, state: BufferState::Held },
        ),
        all_of_size(
            run(s, events.take(k + 1)).pool.buffers,
            run(s, events.take(k)).capture_size,
        ),
{
    lemma_one_frame_in_flight(s, events.take(k));
    lemma_run_step(s, events, k);
    lemma_started_buffer_has_negotiated_size(run(s, events.take(k)), events[k], id);
}

/// Over every sequence of events: a buffer becomes held only from
/// released, by the capture that is submitted on it in that step; it becomes
/// content-ready only as the buffer of the outstanding frame, by the
/// notification that completes that frame; it becomes released only by the
/// signal that names it. So a buffer that is released, then held, then
/// content-ready has had a capture submitted on it in between.
pub proof fn lemma_no_state_is_skipped(s: PipelineView, events: Seq<Event>, k: int, id: u64)
    requires
        s.wf(),
        0 <= k < events.len(),
        run(s, events.take(k)).pool.get(id) is Some,
        run(s, events.take(k + 1)).pool.get(id) is Some,
    ensures
        ({
            let before = run(s, events.take(k));
            let a = before.pool.get(id).unwrap().state;
            let b = run(s, events.take(k + 1)).pool.get(id).unwrap().state;
            &&& b == BufferState::Held && b != a ==> a == BufferState::Released
                && before.submits(events[k], id)
            &&& b == BufferState::ContentReady && b != a ==> before.frame == Some(id)
                && before.completes(events[k], id)
            &&& b == BufferState::Released && b != a ==> events[k] == Event::Released(Some(id))
        }),
{
    lemma_one_frame_in_flight(s, events.take(k));
    lemma_run_step(s, events, k);
    lemma_lifecycle(run(s, events.take(k)), events[k], id);
}

} // verus!

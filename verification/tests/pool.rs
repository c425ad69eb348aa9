use capture_viewer::geometry::Size;
use capture_viewer::pool::{Acquired, Buffer, BufferPool, BufferState};

fn small() -> Size {
    Size::new(640, 480)
}

fn large() -> Size {
    Size::new(1920, 1080)
}

#[test]
fn new_pool_is_empty() {
    let pool = BufferPool::new();
    assert_eq!(pool.len(), 0);
    assert_eq!(pool.get(0), None);
}

#[test]
fn acquire_allocates_with_ascending_identities() {
    let mut pool = BufferPool::new();
    let first = pool.acquire(small());
    assert_eq!(first.outcome, Acquired::Allocated { id: 0 });
    assert!(first.dropped.is_empty());
    let second = pool.acquire(small());
    assert_eq!(second.outcome, Acquired::Allocated { id: 1 });
    assert_eq!(pool.len(), 2);
    assert_eq!(pool.get(0), Some(Buffer { id: 0, size: small(), state: BufferState::Held }));
    assert_eq!(pool.get(1), Some(Buffer { id: 1, size: small(), state: BufferState::Held }));
}

#[test]
fn acquire_reuses_first_released_buffer() {
    let mut pool = BufferPool::new();
    pool.acquire(small());
    pool.acquire(small());
    pool.acquire(small());
    pool.release(2);
    pool.release(1);
    let got = pool.acquire(small());
    assert_eq!(got.outcome, Acquired::Reused { id: 1 });
    assert_eq!(pool.get(1).unwrap().state, BufferState::Held);
    assert_eq!(pool.get(2).unwrap().state, BufferState::Released);
    let got = pool.acquire(small());
    assert_eq!(got.outcome, Acquired::Reused { id: 2 });
    let got = pool.acquire(small());
    assert_eq!(got.outcome, Acquired::Allocated { id: 3 });
}

#[test]
fn acquire_does_not_reuse_held_or_ready_buffers() {
    let mut pool = BufferPool::new();
    pool.acquire(small());
    pool.acquire(small());
    pool.mark_ready(1);
    let got = pool.acquire(small());
    assert_eq!(got.outcome, Acquired::Allocated { id: 2 });
    assert_eq!(pool.get(0).unwrap().state, BufferState::Held);
    assert_eq!(pool.get(1).unwrap().state, BufferState::ContentReady);
}

#[test]
fn acquire_drops_buffers_of_another_size_first() {
    let mut pool = BufferPool::new();
    pool.acquire(small());
    pool.acquire(small());
    pool.release(0);
    pool.mark_ready(1);
    let got = pool.acquire(large());
    assert_eq!(got.dropped, vec![0, 1]);
    assert_eq!(got.outcome, Acquired::Allocated { id: 2 });
    assert_eq!(pool.len(), 1);
    assert_eq!(pool.get(0), None);
    assert_eq!(pool.get(1), None);
    assert_eq!(pool.get(2), Some(Buffer { id: 2, size: large(), state: BufferState::Held }));
}

#[test]
fn acquire_keeps_buffers_of_the_size_asked_for() {
    let mut pool = BufferPool::new();
    pool.acquire(small());
    pool.acquire(large());
    // The buffer of the small size is gone by now.
    assert_eq!(pool.len(), 1);
    pool.release(1);
    let got = pool.acquire(large());
    assert!(got.dropped.is_empty());
    assert_eq!(got.outcome, Acquired::Reused { id: 1 });
}

#[test]
fn every_acquired_buffer_has_the_size_asked_for() {
    let mut pool = BufferPool::new();
    let sizes = [small(), small(), large(), small(), large(), large(), small()];
    for (round, size) in sizes.iter().enumerate() {
        let got = pool.acquire(*size);
        let id = match got.outcome {
            Acquired::Reused { id } => id,
            Acquired::Allocated { id } => id,
            Acquired::Exhausted => panic!("identities cannot run out here"),
        };
        let buffer = pool.get(id).unwrap();
        assert_eq!(buffer.size, *size);
        assert_eq!(buffer.state, BufferState::Held);
        for dropped in &got.dropped {
            assert_eq!(pool.get(*dropped), None);
        }
        if round % 2 == 0 {
            pool.release(id);
        }
    }
}

#[test]
fn prune_reports_dropped_in_pool_order() {
    let mut pool = BufferPool::new();
    pool.acquire(small());
    pool.allocate(large());
    pool.allocate(small());
    pool.allocate(large());
    let dropped = pool.prune(small());
    assert_eq!(dropped, vec![1, 3]);
    assert_eq!(pool.len(), 2);
    assert!(pool.get(0).is_some());
    assert!(pool.get(2).is_some());
}

#[test]
fn reuse_released_on_pool_without_released_buffer() {
    let mut pool = BufferPool::new();
    assert_eq!(pool.reuse_released(), None);
    pool.allocate(small());
    assert_eq!(pool.reuse_released(), None);
    assert_eq!(pool.get(0).unwrap().state, BufferState::Held);
}

#[test]
fn release_and_mark_ready_of_unknown_buffer_change_nothing() {
    let mut pool = BufferPool::new();
    pool.allocate(small());
    pool.release(7);
    pool.mark_ready(9);
    assert_eq!(pool.len(), 1);
    assert_eq!(pool.get(0), Some(Buffer { id: 0, size: small(), state: BufferState::Held }));
}

#[test]
fn release_works_from_every_state() {
    let mut pool = BufferPool::new();
    pool.allocate(small());
    pool.release(0);
    assert_eq!(pool.get(0).unwrap().state, BufferState::Released);
    pool.release(0);
    assert_eq!(pool.get(0).unwrap().state, BufferState::Released);
    pool.mark_ready(0);
    assert_eq!(pool.get(0).unwrap().state, BufferState::ContentReady);
    pool.release(0);
    assert_eq!(pool.get(0).unwrap().state, BufferState::Released);
}

#[test]
fn released_buffer_is_handed_out_again_unchanged() {
    let mut pool = BufferPool::new();
    pool.acquire(small());
    pool.mark_ready(0);
    let before = pool.get(0).unwrap();
    pool.release(0);
    let got = pool.acquire(small());
    assert_eq!(got.outcome, Acquired::Reused { id: 0 });
    assert!(got.dropped.is_empty());
    let after = pool.get(0).unwrap();
    assert_eq!(after.id, before.id);
    assert_eq!(after.size, before.size);
    assert_eq!(after.state, BufferState::Held);
    assert_eq!(pool.len(), 1);
}

//! The pool of pixel buffers and the lifecycle of each buffer.
//!
//! A buffer is handed to a capture (`Held`), filled (`ContentReady`), shown,
//! and given back by the display (`Released`), after which it can be handed
//! to the next capture. The pool is the only place where a buffer's state
//! changes.

use vstd::prelude::*;
use crate::find::{first_where, lemma_first_where, lemma_first_where_is, none_where};
use crate::geometry::Size;

verus! {

/// Where a buffer is in its lifecycle.
#[derive(Clone, Copy, Debug, PartialEq, Eq, Structural)]
pub enum BufferState {
    /// Bound to a capture or otherwise in use: not available.
    Held,
    /// A capture into it has completed.
    ContentReady,
    /// Given back by the display: available for the next capture.
    Released,
}

/// One pixel buffer of the pool.
#[derive(Clone, Copy, Debug, PartialEq, Eq, Structural)]
pub struct Buffer {
    /// Identity, never assigned twice.
    pub id: u64,
    /// Dimensions in pixels.
    pub size: Size,
    pub state: BufferState,
}

/// What `acquire` hands out.
#[derive(Clone, Copy, Debug, PartialEq, Eq, Structural)]
pub enum Acquired {
    /// A released buffer of the pool, now held.
    Reused { id: u64 },
    /// A buffer that did not exist before, now held. Its storage has yet to
    /// be created.
    Allocated { id: u64 },
    /// No buffer was free and every identity has been used.
    Exhausted,
}

/// The predicate "has this size".
pub open spec fn has_size(size: Size) -> spec_fn(Buffer) -> bool {
    |b: Buffer| b.size == size
}

/// The predicate "has another size".
pub open spec fn has_other_size(size: Size) -> spec_fn(Buffer) -> bool {
    |b: Buffer| b.size != size
}

/// The function that takes a buffer to its identity.
pub open spec fn id_of() -> spec_fn(Buffer) -> u64 {
    |b: Buffer| b.id
}

/// The function that puts the buffer named `id` into `state` and leaves
/// every other buffer as it is.
pub open spec fn with_state(id: u64, state: BufferState) -> spec_fn(Buffer) -> Buffer {
    |b: Buffer|
        if b.id == id {
            Buffer { state, ..b }
        } else {
            b
        }
}

/// The predicate "is released".
pub open spec fn is_released() -> spec_fn(Buffer) -> bool {
    |b: Buffer| b.state == BufferState::Released
}

/// The predicate "is named `id`".
pub open spec fn named(id: u64) -> spec_fn(Buffer) -> bool {
    |b: Buffer| b.id == id
}

/// The position of the first released buffer, if there is one.
pub open spec fn first_released(buffers: Seq<Buffer>) -> Option<int> {
    first_where(buffers, is_released())
}

/// No buffer of `buffers` is released.
pub open spec fn none_released(buffers: Seq<Buffer>) -> bool {
    none_where(buffers, is_released())
}

/// The position of the buffer named `id`, if the pool has it.
pub open spec fn position_of(buffers: Seq<Buffer>, id: u64) -> Option<int> {
    first_where(buffers, named(id))
}

/// No identity occurs twice in `buffers`.
pub open spec fn ids_distinct(buffers: Seq<Buffer>) -> bool {
    forall|i: int, j: int|
        0 <= i < j < buffers.len() ==> (#[trigger] buffers[i]).id != (#[trigger] buffers[j]).id
}

/// Every buffer of `buffers` has the size `size`.
pub open spec fn all_of_size(buffers: Seq<Buffer>, size: Size) -> bool {
    forall|i: int| 0 <= i < buffers.len() ==> (#[trigger] buffers[i]).size == size
}

/// The pool as a value: its buffers in the order they were created, and the
/// identity that the next new buffer gets.
pub struct PoolView {
    pub buffers: Seq<Buffer>,
    pub next_id: u64,
}

impl PoolView {
    /// No identity occurs twice, and none has reached `next_id`.
    pub open spec fn wf(self) -> bool {
        &&& ids_distinct(self.buffers)
        &&& forall|i: int|
            0 <= i < self.buffers.len() ==> (#[trigger] self.buffers[i]).id < self.next_id
    }

    /// The pool has a buffer named `id`.
    pub open spec fn has(self, id: u64) -> bool {
        position_of(self.buffers, id) is Some
    }

    /// The buffer named `id`, if the pool has it.
    pub open spec fn get(self, id: u64) -> Option<Buffer> {
        match position_of(self.buffers, id) {
            Some(i) => Some(self.buffers[i]),
            None => None,
        }
    }

    /// The pool without the buffers of another size than `size`.
    pub open spec fn pruned(self, size: Size) -> PoolView {
        PoolView { buffers: self.buffers.filter(has_size(size)), ..self }
    }

    /// The identities of the buffers that `pruned` leaves out, in pool order.
    pub open spec fn dropped(self, size: Size) -> Seq<u64> {
        self.buffers.filter(has_other_size(size)).map_values(id_of())
    }

    /// The pool after its first released buffer was taken, and that buffer's
    /// identity; the pool as it is and `None` where no buffer is released.
    pub open spec fn reused(self) -> (PoolView, Option<u64>) {
        match first_released(self.buffers) {
            Some(i) => (
                PoolView {
                    buffers: self.buffers.update(
                        i,
                        Buffer { state: BufferState::Held, ..self.buffers[i] },
                    ),
                    ..self
                },
                Some(self.buffers[i].id),
            ),
            None => (self, None),
        }
    }

    /// The pool after a new held buffer of `size` was added, and the new
    /// buffer's identity; the pool as it is and `None` where every identity
    /// has been used.
    pub open spec fn allocated(self, size: Size) -> (PoolView, Option<u64>) {
        if self.next_id < u64::MAX {
            (
                PoolView {
                    buffers: self.buffers.push(
                        Buffer { id: self.next_id, size, state: BufferState::Held },
                    ),
                    next_id: (self.next_id + 1) as u64,
                },
                Some(self.next_id),
            )
        } else {
            (self, None)
        }
    }

    /// The pool after a buffer of `size` was acquired, and what was handed
    /// out: buffers of another size leave first, then the first released
    /// buffer is taken, or, where none is released, a new one is added.
    pub open spec fn acquired(self, size: Size) -> (PoolView, Acquired) {
        let pruned = self.pruned(size);
        match pruned.reused().1 {
            Some(id) => (pruned.reused().0, Acquired::Reused { id }),
            None => match pruned.allocated(size).1 {
                Some(id) => (pruned.allocated(size).0, Acquired::Allocated { id }),
                None => (pruned, Acquired::Exhausted),
            },
        }
    }

    /// The pool after the buffer named `id` was put into `state`.
    pub open spec fn with_state(self, id: u64, state: BufferState) -> PoolView {
        PoolView { buffers: self.buffers.map_values(with_state(id, state)), ..self }
    }
}

/// In a pool without repeated identities, `position_of` finds the one
/// position at which an identity stands.
pub proof fn lemma_position_of_is(pool: PoolView, i: int)
    requires
        pool.wf(),
        0 <= i < pool.buffers.len(),
    ensures
        position_of(pool.buffers, pool.buffers[i].id) == Some(i),
        pool.has(pool.buffers[i].id),
        pool.get(pool.buffers[i].id) == Some(pool.buffers[i]),
{
    let id = pool.buffers[i].id;
    assert forall|j: int| 0 <= j < i implies !named(id)(#[trigger] pool.buffers[j]) by {
        assert(pool.buffers[j].id != pool.buffers[i].id);
    }
    assert(named(id)(pool.buffers[i]));
    lemma_first_where_is(pool.buffers, named(id), i);
}

/// What `position_of` finds is a buffer of that name, and it finds nothing
/// only where no buffer has the name.
pub proof fn lemma_position_of(buffers: Seq<Buffer>, id: u64)
    ensures
        position_of(buffers, id) matches Some(i) ==> 0 <= i < buffers.len() && buffers[i].id == id,
        position_of(buffers, id) is None ==> forall|j: int|
            0 <= j < buffers.len() ==> (#[trigger] buffers[j]).id != id,
{
    lemma_first_where(buffers, named(id));
    if position_of(buffers, id) is None {
        assert forall|j: int| 0 <= j < buffers.len() implies (#[trigger] buffers[j]).id != id by {
            assert(!named(id)(buffers[j]));
        }
    }
}

/// Every buffer that a filter lets through was in the sequence.
proof fn lemma_filtered_was_there(buffers: Seq<Buffer>, pred: spec_fn(Buffer) -> bool, k: int)
    requires
        0 <= k < buffers.filter(pred).len(),
    ensures
        buffers.contains(buffers.filter(pred)[k]),
        pred(buffers.filter(pred)[k]),
{
    let f = buffers.filter(pred);
    assert(f.contains(f[k]));
    buffers.lemma_filter_contains_rev(pred, f[k]);
    buffers.lemma_filter_pred(pred, k);
}

/// A filter lets no identity through twice if the sequence had none twice.
proof fn lemma_filter_keeps_ids_distinct(buffers: Seq<Buffer>, pred: spec_fn(Buffer) -> bool)
    requires
        ids_distinct(buffers),
    ensures
        ids_distinct(buffers.filter(pred)),
    decreases buffers.len(),
{
    reveal(Seq::filter);
    let f = buffers.filter(pred);
    if buffers.len() > 0 {
        let rest = buffers.drop_last();
        let last = buffers.last();
        let fr = rest.filter(pred);
        assert forall|i: int, j: int| 0 <= i < j < rest.len() implies (#[trigger] rest[i]).id != (
        #[trigger] rest[j]).id by {
            assert(rest[i] == buffers[i] && rest[j] == buffers[j]);
        }
        lemma_filter_keeps_ids_distinct(rest, pred);
        if pred(last) {
            assert forall|k: int, l: int| 0 <= k < l < f.len() implies (#[trigger] f[k]).id != (
            #[trigger] f[l]).id by {
                if l < fr.len() {
                    assert(f[k] == fr[k] && f[l] == fr[l]);
                } else {
                    assert(f[k] == fr[k] && f[l] == last);
                    lemma_filtered_was_there(rest, pred, k);
                    let i = choose|i: int| 0 <= i < rest.len() && rest[i] == fr[k];
                    assert(buffers[i] == fr[k]);
                    assert(buffers[i].id != buffers[buffers.len() - 1].id);
                }
            }
        }
    }
}

/// Pruning keeps a pool well formed and leaves only buffers of the size
/// asked for.
pub proof fn lemma_pruned_wf(pool: PoolView, size: Size)
    requires
        pool.wf(),
    ensures
        pool.pruned(size).wf(),
        all_of_size(pool.pruned(size).buffers, size),
{
    let p = pool.pruned(size);
    lemma_filter_keeps_ids_distinct(pool.buffers, has_size(size));
    assert forall|k: int| 0 <= k < p.buffers.len() implies (#[trigger] p.buffers[k]).id
        < p.next_id && p.buffers[k].size == size by {
        lemma_filtered_was_there(pool.buffers, has_size(size), k);
        let i = choose|i: int| 0 <= i < pool.buffers.len() && pool.buffers[i] == p.buffers[k];
        assert(pool.buffers[i].id < pool.next_id);
    }
}

/// Pruning for `size` leaves exactly the buffers of that size in the pool,
/// each as it was.
pub proof fn lemma_pruned_get(pool: PoolView, size: Size, id: u64)
    requires
        pool.wf(),
    ensures
        pool.pruned(size).get(id) == (if pool.get(id) is Some && pool.get(id).unwrap().size
            == size {
            pool.get(id)
        } else {
            None
        }),
{
    let p = pool.pruned(size);
    lemma_pruned_wf(pool, size);
    lemma_position_of(p.buffers, id);
    lemma_position_of(pool.buffers, id);
    if p.has(id) {
        let k = choose|k: int| 0 <= k < p.buffers.len() && (#[trigger] p.buffers[k]).id == id;
        lemma_filtered_was_there(pool.buffers, has_size(size), k);
        let i = choose|i: int| 0 <= i < pool.buffers.len() && pool.buffers[i] == p.buffers[k];
        lemma_position_of_is(pool, i);
        lemma_position_of_is(p, k);
    } else if pool.has(id) {
        let i = choose|i: int| 0 <= i < pool.buffers.len() && (#[trigger] pool.buffers[i]).id == id;
        lemma_position_of_is(pool, i);
        if pool.buffers[i].size == size {
            assert(has_size(size)(pool.buffers[i]));
            pool.buffers.lemma_filter_contains(has_size(size), i);
            let k = choose|k: int| 0 <= k < p.buffers.len() && p.buffers[k] == pool.buffers[i];
            assert(p.buffers[k].id == id);
        }
    }
}

/// What `with_state` does to the buffer named `x`.
proof fn lemma_with_state_at(pool: PoolView, id: u64, state: BufferState, x: u64)
    requires
        pool.wf(),
    ensures
        ids_distinct(pool.with_state(id, state).buffers),
        pool.with_state(id, state).has(x) == pool.has(x),
        pool.has(x) ==> pool.with_state(id, state).get(x) == Some(
            with_state(id, state)(pool.get(x).unwrap()),
        ),
{
    let q = pool.with_state(id, state);
    assert forall|i: int| 0 <= i < q.buffers.len() implies (#[trigger] q.buffers[i]).id
        == pool.buffers[i].id by {}
    assert(ids_distinct(q.buffers)) by {
        assert forall|i: int, j: int| 0 <= i < j < q.buffers.len() implies (
        #[trigger] q.buffers[i]).id != (#[trigger] q.buffers[j]).id by {
            assert(pool.buffers[i].id != pool.buffers[j].id);
        }
    }
    let qw = PoolView { buffers: q.buffers, next_id: u64::MAX };
    assert(qw.wf()) by {
        assert forall|i: int| 0 <= i < qw.buffers.len() implies (#[trigger] qw.buffers[i]).id
            < qw.next_id by {
            assert(pool.buffers[i].id < pool.next_id);
        }
    }
    lemma_position_of(pool.buffers, x);
    lemma_position_of(q.buffers, x);
    if pool.has(x) {
        let i = choose|i: int| 0 <= i < pool.buffers.len() && (#[trigger] pool.buffers[i]).id == x;
        lemma_position_of_is(pool, i);
        assert(q.buffers[i].id == x);
        lemma_position_of_is(qw, i);
    }
    if q.has(x) {
        let i = choose|i: int| 0 <= i < q.buffers.len() && (#[trigger] q.buffers[i]).id == x;
        assert(pool.buffers[i].id == x);
        lemma_position_of_is(pool, i);
        lemma_position_of_is(qw, i);
    }
}

/// Putting a buffer into another state changes nothing else: the pool stays
/// well formed, holds the same identities, and every other buffer is as it
/// was.
pub proof fn lemma_with_state(pool: PoolView, id: u64, state: BufferState, other: u64)
    requires
        pool.wf(),
    ensures
        pool.with_state(id, state).wf(),
        pool.with_state(id, state).has(other) == pool.has(other),
        other != id ==> pool.with_state(id, state).get(other) == pool.get(other),
        pool.has(id) ==> pool.with_state(id, state).get(id) == Some(
            Buffer { state, ..pool.get(id).unwrap() },
        ),
{
    let q = pool.with_state(id, state);
    lemma_with_state_at(pool, id, state, other);
    lemma_with_state_at(pool, id, state, id);
    assert forall|i: int| 0 <= i < q.buffers.len() implies (#[trigger] q.buffers[i]).id
        < q.next_id by {
        assert(pool.buffers[i].id < pool.next_id);
    }
    lemma_position_of(pool.buffers, other);
    lemma_position_of(pool.buffers, id);
    if pool.has(other) {
        let i = choose|i: int|
            0 <= i < pool.buffers.len() && (#[trigger] pool.buffers[i]).id == other;
        lemma_position_of_is(pool, i);
    }
    if pool.has(id) {
        let i = choose|i: int| 0 <= i < pool.buffers.len() && (#[trigger] pool.buffers[i]).id == id;
        lemma_position_of_is(pool, i);
    }
}

/// What `acquired` hands out is held and of the size asked for; a reused
/// buffer was in the pool and released, a new one was not in the pool. The
/// pool stays well formed and holds only buffers of that size.
pub proof fn lemma_acquired(pool: PoolView, size: Size)
    requires
        pool.wf(),
    ensures
        pool.acquired(size).0.wf(),
        all_of_size(pool.acquired(size).0.buffers, size),
        pool.acquired(size).1 is Exhausted <==> none_released(pool.pruned(size).buffers)
            && pool.next_id == u64::MAX,
        pool.acquired(size).1 matches Acquired::Reused { id } ==> pool.acquired(size).0.get(id)
            == Some(Buffer { id, size, state: BufferState::Held }) && pool.get(id) == Some(
            Buffer { id, size, state: BufferState::Released },
        ),
        pool.acquired(size).1 matches Acquired::Allocated { id } ==> pool.acquired(size).0.get(
            id,
        ) == Some(Buffer { id, size, state: BufferState::Held }) && !pool.has(id) && id
            == pool.next_id,
{
    let p = pool.pruned(size);
    lemma_pruned_wf(pool, size);
    let (after, out) = pool.acquired(size);
    lemma_first_where(p.buffers, is_released());
    lemma_position_of(pool.buffers, p.next_id);
    match first_released(p.buffers) {
        Some(i) => {
            assert(is_released()(p.buffers[i]));
            let id = p.buffers[i].id;
            assert(ids_distinct(after.buffers)) by {
                assert forall|k: int, l: int| 0 <= k < l < after.buffers.len() implies (
                #[trigger] after.buffers[k]).id != (#[trigger] after.buffers[l]).id by {
                    assert(p.buffers[k].id != p.buffers[l].id);
                }
            }
            assert forall|k: int| 0 <= k < after.buffers.len() implies (
            #[trigger] after.buffers[k]).id < after.next_id && after.buffers[k].size == size by {
                assert(p.buffers[k].id < p.next_id && p.buffers[k].size == size);
            }
            lemma_position_of_is(p, i);
            lemma_position_of_is(after, i);
            lemma_pruned_get(pool, size, id);
        },
        None => {
            if p.next_id < u64::MAX {
                let id = p.next_id;
                let n = p.buffers.len() as int;
                assert(ids_distinct(after.buffers)) by {
                    assert forall|k: int, l: int| 0 <= k < l < after.buffers.len() implies (
                    #[trigger] after.buffers[k]).id != (#[trigger] after.buffers[l]).id by {
                        assert(after.buffers[k] == p.buffers[k]);
                        assert(p.buffers[k].id < id);
                        if l < n {
                            assert(p.buffers[k].id != p.buffers[l].id);
                        }
                    }
                }
                assert forall|k: int| 0 <= k < after.buffers.len() implies (
                #[trigger] after.buffers[k]).id < after.next_id && after.buffers[k].size
                    == size by {
                    if k < n {
                        assert(p.buffers[k].id < p.next_id && p.buffers[k].size == size);
                    }
                }
                lemma_position_of_is(after, n);
                if pool.has(id) {
                    let i = choose|i: int|
                        0 <= i < pool.buffers.len() && (#[trigger] pool.buffers[i]).id == id;
                    assert(pool.buffers[i].id < pool.next_id);
                }
            }
        },
    }
}

/// Taking the first released buffer changes that buffer only, from released
/// to held.
pub proof fn lemma_reused(pool: PoolView, other: u64)
    requires
        pool.wf(),
    ensures
        pool.reused().0.wf(),
        pool.reused().0.next_id == pool.next_id,
        pool.reused().1 is None ==> pool.reused().0 == pool,
        pool.reused().1 matches Some(id) ==> {
            &&& pool.get(id) matches Some(b) && b.state == BufferState::Released
            &&& pool.reused().0.get(id) == Some(
                Buffer { state: BufferState::Held, ..pool.get(id).unwrap() },
            )
            &&& other != id ==> pool.reused().0.get(other) == pool.get(other)
        },
{
    let after = pool.reused().0;
    lemma_first_where(pool.buffers, is_released());
    match first_released(pool.buffers) {
        Some(i) => {
            assert(is_released()(pool.buffers[i]));
            assert(ids_distinct(after.buffers)) by {
                assert forall|k: int, l: int| 0 <= k < l < after.buffers.len() implies (
                #[trigger] after.buffers[k]).id != (#[trigger] after.buffers[l]).id by {
                    assert(pool.buffers[k].id != pool.buffers[l].id);
                }
            }
            assert forall|k: int| 0 <= k < after.buffers.len() implies (
            #[trigger] after.buffers[k]).id < after.next_id by {
                assert(pool.buffers[k].id < pool.next_id);
            }
            lemma_position_of_is(pool, i);
            lemma_position_of_is(after, i);
            lemma_same_ids_same_places(pool, after, other);
        },
        None => {},
    }
}

/// Two pools that hold the same identities at the same places find an
/// identity at the same place.
proof fn lemma_same_ids_same_places(a: PoolView, b: PoolView, id: u64)
    requires
        a.wf(),
        ids_distinct(b.buffers),
        a.buffers.len() == b.buffers.len(),
        forall|k: int| 0 <= k < a.buffers.len() ==> (#[trigger] a.buffers[k]).id == b.buffers[k].id,
    ensures
        position_of(a.buffers, id) == position_of(b.buffers, id),
{
    let bw = PoolView { buffers: b.buffers, next_id: u64::MAX };
    assert(bw.wf()) by {
        assert forall|k: int| 0 <= k < bw.buffers.len() implies (#[trigger] bw.buffers[k]).id
            < bw.next_id by {
            assert(a.buffers[k].id == b.buffers[k].id);
            assert(a.buffers[k].id < a.next_id);
        }
    }
    lemma_position_of(a.buffers, id);
    lemma_position_of(b.buffers, id);
    if a.has(id) {
        let i = choose|i: int| 0 <= i < a.buffers.len() && (#[trigger] a.buffers[i]).id == id;
        lemma_position_of_is(a, i);
        assert(b.buffers[i].id == id);
        lemma_position_of_is(bw, i);
    } else if position_of(b.buffers, id) is Some {
        let i = choose|i: int| 0 <= i < b.buffers.len() && (#[trigger] b.buffers[i]).id == id;
        assert(a.buffers[i].id == id);
    }
}

/// Adding a new buffer leaves every buffer of the pool as it was; the new
/// one is held, has the size asked for and an identity that the pool did
/// not have.
pub proof fn lemma_allocated(pool: PoolView, size: Size, other: u64)
    requires
        pool.wf(),
    ensures
        pool.allocated(size).0.wf(),
        pool.allocated(size).0.next_id >= pool.next_id,
        pool.allocated(size).1 is None ==> pool.allocated(size).0 == pool,
        pool.allocated(size).1 matches Some(id) ==> {
            &&& id == pool.next_id
            &&& !pool.has(id)
            &&& pool.allocated(size).0.get(id) == Some(
                Buffer { id, size, state: BufferState::Held },
            )
            &&& other != id ==> pool.allocated(size).0.get(other) == pool.get(other)
        },
{
    let after = pool.allocated(size).0;
    lemma_position_of(pool.buffers, pool.next_id);
    lemma_position_of(pool.buffers, other);
    lemma_position_of(after.buffers, other);
    if pool.next_id < u64::MAX {
        let id = pool.next_id;
        let n = pool.buffers.len() as int;
        assert(ids_distinct(after.buffers)) by {
            assert forall|k: int, l: int| 0 <= k < l < after.buffers.len() implies (
            #[trigger] after.buffers[k]).id != (#[trigger] after.buffers[l]).id by {
                assert(after.buffers[k] == pool.buffers[k]);
                assert(pool.buffers[k].id < id);
                if l < n {
                    assert(pool.buffers[k].id != pool.buffers[l].id);
                }
            }
        }
        assert forall|k: int| 0 <= k < after.buffers.len() implies (
        #[trigger] after.buffers[k]).id < after.next_id by {
            if k < n {
                assert(pool.buffers[k].id < pool.next_id);
            }
        }
        lemma_position_of_is(after, n);
        if pool.has(id) {
            let i = choose|i: int|
                0 <= i < pool.buffers.len() && (#[trigger] pool.buffers[i]).id == id;
            assert(pool.buffers[i].id < pool.next_id);
        }
        if other != id {
            if pool.has(other) {
                let i = choose|i: int|
                    0 <= i < pool.buffers.len() && (#[trigger] pool.buffers[i]).id == other;
                lemma_position_of_is(pool, i);
                assert(after.buffers[i] == pool.buffers[i]);
                lemma_position_of_is(after, i);
            } else if after.has(other) {
                let i = choose|i: int|
                    0 <= i < after.buffers.len() && (#[trigger] after.buffers[i]).id == other;
                assert(i < n);
                assert(pool.buffers[i].id == other);
            }
        }
    }
}

/// The pool of pixel buffers.
pub struct BufferPool {
    buffers: Vec<Buffer>,
    next_id: u64,
}

/// What `BufferPool::acquire` did: the buffers it dropped, and the buffer it
/// hands out.
pub struct Acquisition {
    /// Identities of the buffers that left the pool, in pool order. Their
    /// storage is to be destroyed.
    pub dropped: Vec<u64>,
    pub outcome: Acquired,
}

impl View for BufferPool {
    type V = PoolView;

    closed spec fn view(&self) -> PoolView {
        PoolView { buffers: self.buffers@, next_id: self.next_id }
    }
}

impl BufferPool {
    /// The pool's invariant: see `PoolView::wf`.
    pub open spec fn wf(&self) -> bool {
        self@.wf()
    }

    /// An empty pool whose first buffer will be named 0.
    pub fn new() -> (pool: BufferPool)
        ensures
            pool.wf(),
            pool@.buffers.len() == 0,
            pool@.next_id == 0,
    {
        BufferPool { buffers: Vec::new(), next_id: 0 }
    }

    /// Number of buffers in the pool.
    pub fn len(&self) -> (n: usize)
        ensures
            n == self@.buffers.len(),
    {
        self.buffers.len()
    }

    /// The buffer named `id`, if the pool has it.
    pub fn get(&self, id: u64) -> (found: Option<Buffer>)
        requires
            self.wf(),
        ensures
            found == self@.get(id),
    {
        let mut i: usize = 0;
        while i < self.buffers.len()
            invariant
                i <= self.buffers.len(),
                self.wf(),
                forall|k: int| 0 <= k < i ==> (#[trigger] self.buffers@[k]).id != id,
            decreases self.buffers.len() - i,
        {
            if self.buffers[i].id == id {
                proof {
                    lemma_position_of_is(self@, i as int);
                }
                return Some(self.buffers[i]);
            }
            i += 1;
        }
        proof {
            lemma_position_of(self.buffers@, id);
        }
        None
    }

    /// Drops every buffer whose size is not `size` and returns the
    /// identities of the dropped buffers, in pool order.
    pub fn prune(&mut self, size: Size) -> (dropped: Vec<u64>)
        requires
            old(self).wf(),
        ensures
            final(self).wf(),
            final(self)@ == old(self)@.pruned(size),
            dropped@ == old(self)@.dropped(size),
            all_of_size(final(self)@.buffers, size),
    {
        let mut kept: Vec<Buffer> = Vec::new();
        let mut dropped: Vec<u64> = Vec::new();
        let mut i: usize = 0;
        proof {
            reveal(Seq::filter);
            assert(self.buffers@.take(0) =~= Seq::<Buffer>::empty());
        }
        while i < self.buffers.len()
            invariant
                i <= self.buffers.len(),
                kept@ == self.buffers@.take(i as int).filter(has_size(size)),
                dropped@ == self.buffers@.take(i as int).filter(has_other_size(size)).map_values(
                    id_of(),
                ),
            decreases self.buffers.len() - i,
        {
            let b: Buffer = self.buffers[i];
            proof {
                reveal(Seq::filter);
                let before = self.buffers@.take(i as int);
                let upto = self.buffers@.take(i + 1);
                assert(upto.drop_last() =~= before);
                assert(upto.last() == b);
                assert(has_size(size)(b) == (b.size == size));
                assert(has_other_size(size)(b) == (b.size != size));
                if b.size != size {
                    assert(upto.filter(has_other_size(size)).map_values(id_of())
                        =~= before.filter(has_other_size(size)).map_values(id_of()).push(b.id));
                }
            }
            if b.size == size {
                kept.push(b);
            } else {
                dropped.push(b.id);
            }
            i += 1;
        }
        proof {
            assert(self.buffers@.take(i as int) =~= self.buffers@);
            lemma_pruned_wf(self@, size);
        }
        self.buffers = kept;
        dropped
    }

    /// Takes the first released buffer: it becomes held, and its identity is
    /// returned. Returns `None`, changing nothing, if no buffer is released.
    pub fn reuse_released(&mut self) -> (taken: Option<u64>)
        requires
            old(self).wf(),
        ensures
            final(self).wf(),
            (final(self)@, taken) == old(self)@.reused(),
    {
        let mut i: usize = 0;
        while i < self.buffers.len()
            invariant
                i <= self.buffers.len(),
                self.wf(),
                *self == *old(self),
                forall|k: int|
                    0 <= k < i ==> (#[trigger] self.buffers@[k]).state != BufferState::Released,
            decreases self.buffers.len() - i,
        {
            let b: Buffer = self.buffers[i];
            match b.state {
                BufferState::Released => {
                    proof {
                        assert(is_released()(self.buffers@[i as int]));
                        assert forall|j: int| 0 <= j < i implies !is_released()(
                            #[trigger] self.buffers@[j],
                        ) by {
                            assert(self.buffers@[j].state != BufferState::Released);
                        }
                        lemma_first_where_is(self.buffers@, is_released(), i as int);
                    }
                    let ghost before = self.buffers@;
                    self.buffers.set(i, Buffer { id: b.id, size: b.size, state: BufferState::Held });
                    proof {
                        assert(ids_distinct(self.buffers@)) by {
                            assert forall|k: int, l: int|
                                0 <= k < l < self.buffers@.len() implies (
                            #[trigger] self.buffers@[k]).id != (#[trigger] self.buffers@[l]).id by {
                                assert(before[k].id != before[l].id);
                            }
                        }
                        assert forall|k: int| 0 <= k < self.buffers@.len() implies (
                        #[trigger] self.buffers@[k]).id < self.next_id by {
                            assert(before[k].id < self.next_id);
                        }
                    }
                    return Some(b.id);
                },
                _ => {},
            }
            i += 1;
        }
        proof {
            assert forall|j: int| 0 <= j < self.buffers@.len() implies !is_released()(
                #[trigger] self.buffers@[j],
            ) by {
                assert(self.buffers@[j].state != BufferState::Released);
            }
            lemma_first_where(self.buffers@, is_released());
        }
        None
    }

    /// Adds a held buffer of `size` under an identity that was never used and
    /// returns that identity. Returns `None`, changing nothing, if every
    /// identity has been used.
    pub fn allocate(&mut self, size: Size) -> (id: Option<u64>)
        requires
            old(self).wf(),
        ensures
            final(self).wf(),
            (final(self)@, id) == old(self)@.allocated(size),
    {
        if self.next_id == u64::MAX {
            return None;
        }
        let id: u64 = self.next_id;
        let ghost before = self.buffers@;
        self.buffers.push(Buffer { id, size, state: BufferState::Held });
        self.next_id = id + 1;
        proof {
            assert(ids_distinct(self.buffers@)) by {
                assert forall|k: int, l: int| 0 <= k < l < self.buffers@.len() implies (
                #[trigger] self.buffers@[k]).id != (#[trigger] self.buffers@[l]).id by {
                    assert(self.buffers@[k] == before[k]);
                    assert(before[k].id < id);
                    if l < before.len() {
                        assert(before[k].id != before[l].id);
                    }
                }
            }
            assert forall|k: int| 0 <= k < self.buffers@.len() implies (
            #[trigger] self.buffers@[k]).id < self.next_id by {
                if k < before.len() {
                    assert(before[k].id < id);
                }
            }
        }
        Some(id)
    }

    /// Hands out a buffer of `size`. Buffers of another size leave the pool
    /// first. Then the first released buffer is taken, or, if none is
    /// released, a new one is added. Whatever is handed out is held and has
    /// exactly the size asked for.
    pub fn acquire(&mut self, size: Size) -> (got: Acquisition)
        requires
            old(self).wf(),
        ensures
            final(self).wf(),
            (final(self)@, got.outcome) == old(self)@.acquired(size),
            got.dropped@ == old(self)@.dropped(size),
            all_of_size(final(self)@.buffers, size),
            got.outcome is Exhausted <==> none_released(old(self)@.pruned(size).buffers)
                && old(self)@.next_id == u64::MAX,
            got.outcome matches Acquired::Reused { id } ==> final(self)@.get(id) == Some(
                Buffer { id, size, state: BufferState::Held },
            ) && old(self)@.get(id) == Some(Buffer { id, size, state: BufferState::Released }),
            got.outcome matches Acquired::Allocated { id } ==> final(self)@.get(id) == Some(
                Buffer { id, size, state: BufferState::Held },
            ) && !old(self)@.has(id),
    {
        let dropped = self.prune(size);
        proof {
            lemma_acquired(old(self)@, size);
        }
        match self.reuse_released() {
            Some(id) => Acquisition { dropped, outcome: Acquired::Reused { id } },
            None => match self.allocate(size) {
                Some(id) => Acquisition { dropped, outcome: Acquired::Allocated { id } },
                None => Acquisition { dropped, outcome: Acquired::Exhausted },
            },
        }
    }

    /// Records that the capture into the buffer named `id` has completed:
    /// the buffer is now content-ready. A pool without such a buffer is left
    /// as it is.
    pub fn mark_ready(&mut self, id: u64)
        requires
            old(self).wf(),
        ensures
            final(self).wf(),
            final(self)@ == old(self)@.with_state(id, BufferState::ContentReady),
    {
        self.set_state(id, BufferState::ContentReady);
    }

    /// Records that the display has given the buffer named `id` back: the
    /// buffer is now released, whatever state it was in. A pool without such
    /// a buffer is left as it is.
    pub fn release(&mut self, id: u64)
        requires
            old(self).wf(),
        ensures
            final(self).wf(),
            final(self)@ == old(self)@.with_state(id, BufferState::Released),
    {
        self.set_state(id, BufferState::Released);
    }

    fn set_state(&mut self, id: u64, state: BufferState)
        requires
            old(self).wf(),
        ensures
            final(self).wf(),
            final(self)@ == old(self)@.with_state(id, state),
    {
        let mut i: usize = 0;
        while i < self.buffers.len()
            invariant
                i <= self.buffers.len(),
                self.buffers@.len() == old(self).buffers@.len(),
                self.next_id == old(self).next_id,
                forall|k: int|
                    0 <= k < i ==> #[trigger] self.buffers@[k] == with_state(id, state)(
                        old(self).buffers@[k],
                    ),
                forall|k: int|
                    i <= k < self.buffers@.len() ==> #[trigger] self.buffers@[k] == old(
                        self,
                    ).buffers@[k],
            decreases self.buffers.len() - i,
        {
            let b: Buffer = self.buffers[i];
            if b.id == id {
                self.buffers.set(i, Buffer { id: b.id, size: b.size, state });
            }
            i += 1;
        }
        proof {
            assert(self.buffers@ =~= old(self).buffers@.map_values(with_state(id, state)));
            lemma_with_state(old(self)@, id, state, id);
        }
    }
}

} // verus!

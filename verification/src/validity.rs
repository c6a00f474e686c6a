//! The invariant of the coordinator: it holds at startup and every step
//! keeps it.

use crate::command::{DrawlistId, ObjectKey, RenderCommand, ReplyId, NO_OBJECT};
use crate::db::GraphicsState;
use crate::drawlist::{
    count, holds, lemma_count_all, lemma_count_partition, lemma_count_update, DrawlistState,
    Stage,
};
use crate::model::{
    bindings_sound, listed, pool_lists_free, CoordinatorState, Event, Phase,
};
use vstd::prelude::*;

verus! {

/// Taking the drawlist on top of the idle pool out of it.
proof fn lemma_pool_take(slots: Seq<DrawlistState>, free: Seq<DrawlistId>, state: DrawlistState)
    requires
        pool_lists_free(slots, free),
        free.len() > 0,
        !(state is Free),
    ensures
        free.last() < slots.len(),
        slots[free.last() as int] is Free,
        pool_lists_free(slots.update(free.last() as int, state), free.drop_last()),
{
    let top = free.len() - 1;
    let d = free[top] as int;
    let after = slots.update(d, state);
    let rest = free.drop_last();
    lemma_count_update(slots, d, state, Stage::Free);
    assert forall|i: int| 0 <= i < rest.len() implies (#[trigger] rest[i]) < after.len()
        && after[rest[i] as int] is Free by {
        assert(rest[i] == free[i]);
        assert(free[i] != free[top]);
    }
    assert forall|e: int| 0 <= e < after.len() && (#[trigger] after[e]) is Free implies listed(
        rest,
        e,
    ) by {
        assert(slots[e] is Free);
        let i = choose|i: int| 0 <= i < free.len() && #[trigger] free[i] == e;
        assert(rest[i] == e);
    }
}

/// Putting a drawlist that was out back on top of the idle pool.
proof fn lemma_pool_give(slots: Seq<DrawlistState>, free: Seq<DrawlistId>, drawlist: DrawlistId)
    requires
        pool_lists_free(slots, free),
        drawlist < slots.len(),
        !(slots[drawlist as int] is Free),
    ensures
        pool_lists_free(slots.update(drawlist as int, DrawlistState::Free), free.push(drawlist)),
{
    let d = drawlist as int;
    let after = slots.update(d, DrawlistState::Free);
    let more = free.push(drawlist);
    lemma_count_update(slots, d, DrawlistState::Free, Stage::Free);
    assert forall|i: int| 0 <= i < more.len() implies (#[trigger] more[i]) < after.len()
        && after[more[i] as int] is Free by {
        if i < free.len() {
            assert(more[i] == free[i]);
        }
    }
    assert forall|i: int, j: int| 0 <= i < j < more.len() implies #[trigger] more[i]
        != #[trigger] more[j] by {
        assert(more[i] == free[i]);
        if j < free.len() {
            assert(more[j] == free[j]);
        }
    }
    assert forall|e: int| 0 <= e < after.len() && (#[trigger] after[e]) is Free implies listed(
        more,
        e,
    ) by {
        if e == d {
            assert(more[free.len() as int] == e);
        } else {
            assert(slots[e] is Free);
            let i = choose|i: int| 0 <= i < free.len() && #[trigger] free[i] == e;
            assert(more[i] == e);
        }
    }
}

/// Moving a drawlist that is out to another stage outside the pool.
proof fn lemma_pool_keep(
    slots: Seq<DrawlistState>,
    free: Seq<DrawlistId>,
    d: int,
    state: DrawlistState,
)
    requires
        pool_lists_free(slots, free),
        0 <= d < slots.len(),
        !(slots[d] is Free),
        !(state is Free),
    ensures
        pool_lists_free(slots.update(d, state), free),
{
    let after = slots.update(d, state);
    lemma_count_update(slots, d, state, Stage::Free);
    assert forall|e: int| 0 <= e < after.len() && (#[trigger] after[e]) is Free implies listed(
        free,
        e,
    ) by {
        assert(slots[e] is Free);
    }
}

/// Taking a drawlist from its worker, or moving any drawlist to a state in
/// which no worker has it, gives no worker a drawlist.
proof fn lemma_unbind(slots: Seq<DrawlistState>, d: int, state: DrawlistState)
    requires
        bindings_sound(slots),
        0 <= d < slots.len(),
        !(state is Bound),
        state.has_scene(),
    ensures
        bindings_sound(slots.update(d, state)),
        forall|reply: ReplyId| #[trigger]
            holds(slots.update(d, state), reply) ==> holds(slots, reply),
        count(slots.update(d, state), Stage::Bound) <= count(slots, Stage::Bound),
        slots[d] is Bound ==> count(slots.update(d, state), Stage::Bound) + 1 == count(
            slots,
            Stage::Bound,
        ),
{
    let after = slots.update(d, state);
    lemma_count_update(slots, d, state, Stage::Bound);
    assert forall|a: int, b: int| 0 <= a < b < after.len() implies !((
    #[trigger] after[a]) matches DrawlistState::Bound { reply, .. } && (
    #[trigger] after[b]).held_by(reply)) by {
        if a != d && b != d {
            assert(after[a] == slots[a] && after[b] == slots[b]);
        }
    }
    assert forall|reply: ReplyId| #[trigger] holds(after, reply) implies holds(slots, reply) by {
        let e = choose|e: int| 0 <= e < after.len() && #[trigger] after[e].held_by(reply);
        assert(slots[e].held_by(reply));
    }
}

/// Handing a drawlist to a worker that has none gives that worker one
/// drawlist and no other worker any.
proof fn lemma_bind(
    slots: Seq<DrawlistState>,
    d: int,
    reply: ReplyId,
    scene: ObjectKey,
    camera: ObjectKey,
)
    requires
        bindings_sound(slots),
        0 <= d < slots.len(),
        !(slots[d] is Bound),
        !holds(slots, reply),
        scene != NO_OBJECT,
    ensures
        bindings_sound(slots.update(d, DrawlistState::Bound { reply, scene, camera })),
        forall|other: ReplyId| #[trigger]
            holds(slots.update(d, DrawlistState::Bound { reply, scene, camera }), other)
                ==> other == reply || holds(slots, other),
        count(slots.update(d, DrawlistState::Bound { reply, scene, camera }), Stage::Bound)
            == count(slots, Stage::Bound) + 1,
{
    let state = DrawlistState::Bound { reply, scene, camera };
    let after = slots.update(d, state);
    lemma_count_update(slots, d, state, Stage::Bound);
    assert forall|a: int, b: int| 0 <= a < b < after.len() implies !((
    #[trigger] after[a]) matches DrawlistState::Bound { reply: holder, .. } && (
    #[trigger] after[b]).held_by(holder)) by {
        if a == d {
            if after[b].held_by(reply) {
                assert(slots[b].held_by(reply));
            }
        } else if b == d {
            if after[a].held_by(reply) {
                assert(slots[a].held_by(reply));
            }
        } else {
            assert(after[a] == slots[a] && after[b] == slots[b]);
        }
    }
    assert forall|other: ReplyId| #[trigger] holds(after, other) implies other == reply || holds(
        slots,
        other,
    ) by {
        let e = choose|e: int| 0 <= e < after.len() && #[trigger] after[e].held_by(other);
        if e != d {
            assert(slots[e].held_by(other));
        }
    }
}

/// The state at startup is a valid state.
pub proof fn lemma_init_inv<S>(
    db: GraphicsState<S>,
    pool_size: nat,
    workers: nat,
    resource: bool,
    now: u64,
)
    requires
        pool_size <= usize::MAX,
    ensures
        CoordinatorState::init(db, pool_size, workers, resource, now).inv(),
{
    let s = CoordinatorState::init(db, pool_size, workers, resource, now);
    lemma_count_all(s.slots, Stage::Free);
    lemma_count_partition(s.slots);
        assert forall|d: int| 0 <= d < s.slots.len() && (#[trigger] s.slots[d]) is Free implies
    listed(s.free, d) by {
        assert(s.free[d] == d);
    }
}

proof fn lemma_pair_inv<S>(s: CoordinatorState<S>, reply: ReplyId)
    requires
        s.inv(),
        s.can_pair(),
        !(s.phase is Draining),
        !holds(s.slots, reply),
        !s.waiting.contains(reply),
        s.waiting.len() + s.in_flight() < s.workers,
    ensures
        s.pair(reply).0.inv(),
{
    let state = DrawlistState::Bound { reply, scene: s.scene, camera: s.camera };
    lemma_pool_take(s.slots, s.free, state);
    lemma_bind(s.slots, s.free.last() as int, reply, s.scene, s.camera);
}

proof fn lemma_release_inv<S>(
    s: CoordinatorState<S>,
    t: CoordinatorState<S>,
    drawlist: DrawlistId,
)
    requires
        s.inv(),
        drawlist < s.slots.len(),
        !(s.slots[drawlist as int] is Free),
        t.slots == s.slots.update(drawlist as int, DrawlistState::Free),
        t.free == s.free.push(drawlist),
        t.waiting == s.waiting,
        t.workers == s.workers,
        t.phase == s.phase,
    ensures
        t.inv(),
{
    lemma_pool_give(s.slots, s.free, drawlist);
    lemma_unbind(s.slots, drawlist as int, DrawlistState::Free);
}

proof fn lemma_complete_inv<S>(s: CoordinatorState<S>, drawlist: DrawlistId)
    requires
        s.inv(),
    ensures
        s.complete(drawlist).0.inv(),
{
    let t = s.complete(drawlist).0;
    if drawlist < s.slots.len() && s.slots[drawlist as int] is Bound {
        if s.phase is Draining {
            lemma_release_inv(s, t, drawlist);
        } else {
            assert(s.slots[drawlist as int].has_scene());
            lemma_pool_keep(s.slots, s.free, drawlist as int, t.slots[drawlist as int]);
            lemma_unbind(s.slots, drawlist as int, t.slots[drawlist as int]);
        }
    }
}

proof fn lemma_announce_inv<S>(s: CoordinatorState<S>, reply: ReplyId)
    requires
        s.inv(),
        !(s.phase is Draining),
    ensures
        s.announce(reply).0.inv(),
{
    let t = s.announce(reply).0;
    if s.announce_violation(reply) is None {
        if s.can_pair() {
            lemma_pair_inv(s, reply);
        } else {
            assert forall|i: int, j: int| 0 <= i < j < t.waiting.len() implies
            #[trigger] t.waiting[i] != #[trigger] t.waiting[j] by {
                assert(t.waiting[i] == s.waiting[i]);
                if j < s.waiting.len() {
                    assert(t.waiting[j] == s.waiting[j]);
                }
            }
            assert forall|i: int| 0 <= i < t.waiting.len() implies !holds(
                t.slots,
                #[trigger] t.waiting[i],
            ) by {
                if i < s.waiting.len() {
                    assert(t.waiting[i] == s.waiting[i]);
                }
            }
        }
    }
}

proof fn lemma_poll_empty_inv<S>(s: CoordinatorState<S>)
    requires
        s.inv(),
        !(s.phase is Draining),
    ensures
        s.poll_empty().0.inv(),
{
    if s.can_pair() && s.waiting.len() > 0 {
        let last = s.waiting.len() - 1;
        let reply = s.waiting[last];
        let r = CoordinatorState { waiting: s.waiting.drop_last(), ..s };
        assert forall|i: int| 0 <= i < r.waiting.len() implies !holds(
            r.slots,
            #[trigger] r.waiting[i],
        ) by {
            assert(r.waiting[i] == s.waiting[i]);
        }
        assert(!holds(s.slots, s.waiting[last]));
        if r.waiting.contains(reply) {
            let i = choose|i: int| 0 <= i < r.waiting.len() && r.waiting[i] == reply;
            assert(s.waiting[i] == s.waiting[last]);
        }
        lemma_pair_inv(r, reply);
    }
}

proof fn lemma_presented_inv<S>(s: CoordinatorState<S>, drawlist: DrawlistId, now: u64)
    requires
        s.inv(),
    ensures
        s.presented(drawlist, now).0.inv(),
{
    let t = s.presented(drawlist, now).0;
    if drawlist < s.slots.len() && s.slots[drawlist as int] is Prepared {
        lemma_release_inv(s, t, drawlist);
    }
}

/// Every step leads from a valid state to a valid state.
pub proof fn lemma_next_inv<S>(s: CoordinatorState<S>, event: Event<S>)
    requires
        s.inv(),
    ensures
        s.next(event).0.inv(),
{
    match s.phase {
        Phase::Terminated => {},
        Phase::Draining { ack } => match event {
            Event::Command(RenderCommand::Complete(drawlist)) => lemma_complete_inv(s, drawlist),
            Event::Presented { drawlist, now } => lemma_presented_inv(s, drawlist, now),
            _ => {},
        },
        _ => match event {
            Event::Command(RenderCommand::Waiting(reply)) => lemma_announce_inv(s, reply),
            Event::Command(RenderCommand::Complete(drawlist)) => lemma_complete_inv(s, drawlist),
            Event::Idle => lemma_poll_empty_inv(s),
            Event::Presented { drawlist, now } => lemma_presented_inv(s, drawlist, now),
            _ => {},
        },
    }
}

/// Every run that starts in a valid state ends in one.
pub proof fn lemma_run_inv<S>(s: CoordinatorState<S>, events: Seq<Event<S>>)
    requires
        s.inv(),
    ensures
        s.run(events).inv(),
    decreases events.len(),
{
    if events.len() > 0 {
        lemma_run_inv(s, events.drop_last());
        lemma_next_inv(s.run(events.drop_last()), events.last());
    }
}

} // verus!

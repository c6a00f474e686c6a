//! The coordinator and the workers fit together: in the renderer as a whole
//! no move runs into a fault, and every move keeps the invariant of
//! `system`.

use crate::command::{DrawlistId, RenderCommand, ReplyId};
use crate::drawlist::{
    holds, lemma_count_all, lemma_count_partition, lemma_count_positive, lemma_count_update,
    DrawlistState, Stage,
};
use crate::model::{bindings_sound, listed, ActionView, CoordinatorState, Event};
use crate::system::{count_idle, idle, link_ok, reply_to, Link, Move, Place, SystemState};
use crate::safety::lemma_single_owner;
use crate::validity::{lemma_init_inv, lemma_next_inv};
use crate::worker::WorkerEvent;
use vstd::prelude::*;

verus! {

/// Changing one worker changes the number of idle workers by that worker
/// alone.
proof fn lemma_count_idle_change<S>(a: Seq<Link<S>>, b: Seq<Link<S>>, i: int)
    requires
        a.len() == b.len(),
        0 <= i < a.len(),
        forall|j: int| 0 <= j < a.len() && j != i ==> idle(#[trigger] a[j]) == idle(b[j]),
    ensures
        count_idle(b) + (if idle(a[i]) {
            1nat
        } else {
            0nat
        }) == count_idle(a) + (if idle(b[i]) {
            1nat
        } else {
            0nat
        }),
    decreases a.len(),
{
    let last = a.len() - 1;
    if i == last {
        lemma_count_idle_same(a.drop_last(), b.drop_last());
    } else {
        assert(idle(a[last]) == idle(b[last]));
        lemma_count_idle_change(a.drop_last(), b.drop_last(), i);
    }
}

/// Workers that are idle or not as before are as many idle as before.
proof fn lemma_count_idle_same<S>(a: Seq<Link<S>>, b: Seq<Link<S>>)
    requires
        a.len() == b.len(),
        forall|j: int| 0 <= j < a.len() ==> idle(#[trigger] a[j]) == idle(b[j]),
    ensures
        count_idle(a) == count_idle(b),
    decreases a.len(),
{
    if a.len() > 0 {
        let last = a.len() - 1;
        assert(idle(a[last]) == idle(b[last]));
        lemma_count_idle_same(a.drop_last(), b.drop_last());
    }
}

/// Where one worker is idle, at least one is.
proof fn lemma_count_idle_positive<S>(a: Seq<Link<S>>, i: int)
    requires
        0 <= i < a.len(),
        idle(a[i]),
    ensures
        count_idle(a) >= 1,
    decreases a.len(),
{
    if i < a.len() - 1 {
        lemma_count_idle_positive(a.drop_last(), i);
    }
}

/// How a change of one drawlist changes what a worker has.
proof fn lemma_holds_update(
    slots: Seq<DrawlistState>,
    d: int,
    state: DrawlistState,
    reply: ReplyId,
)
    requires
        0 <= d < slots.len(),
        bindings_sound(slots),
    ensures
        state.held_by(reply) ==> holds(slots.update(d, state), reply),
        !state.held_by(reply) && !slots[d].held_by(reply) ==> holds(slots.update(d, state), reply)
            == holds(slots, reply),
        !state.held_by(reply) && slots[d].held_by(reply) ==> !holds(
            slots.update(d, state),
            reply,
        ),
        forall|e: int|
            0 <= e < slots.len() && e != d && slots[e].held_by(reply) ==> (#[trigger] slots.update(
                d,
                state,
            )[e]).held_by(reply),
{
    let after = slots.update(d, state);
    if state.held_by(reply) {
        assert(after[d].held_by(reply));
    }
    if !state.held_by(reply) {
        if holds(after, reply) {
            let e = choose|e: int| 0 <= e < after.len() && #[trigger] after[e].held_by(reply);
            assert(e != d);
            assert(slots[e].held_by(reply));
            if slots[d].held_by(reply) {
                if e < d {
                    assert(!(slots[e] matches DrawlistState::Bound { reply: holder, .. }
                        && slots[d].held_by(holder)));
                } else {
                    assert(!(slots[d] matches DrawlistState::Bound { reply: holder, .. }
                        && slots[e].held_by(holder)));
                }
            }
        }
        if holds(slots, reply) && !slots[d].held_by(reply) {
            let e = choose|e: int| 0 <= e < slots.len() && #[trigger] slots[e].held_by(reply);
            assert(after[e].held_by(reply));
        }
    }
}

/// A worker whose standing with the coordinator is as before, and whose
/// messages are as before, still agrees with the coordinator.
proof fn lemma_link_frame<S>(
    c: CoordinatorState<S>,
    after: CoordinatorState<S>,
    i: int,
    link: Link<S>,
    now: Link<S>,
)
    requires
        link_ok(c, i, link),
        now.worker == link.worker,
        now.sent =~= link.sent,
        now.inbox =~= link.inbox,
        after.slots.len() == c.slots.len(),
        after.waiting.contains(link.worker.reply) == c.waiting.contains(link.worker.reply),
        holds(after.slots, link.worker.reply) == holds(c.slots, link.worker.reply),
        forall|d: int|
            0 <= d < c.slots.len() && c.slots[d].held_by(link.worker.reply) ==> (
            #[trigger] after.slots[d]).held_by(link.worker.reply),
    ensures
        link_ok(after, i, now),
        idle(now) == idle(link),
{
}

/// The moves of a worker.
proof fn lemma_work_fits<S>(s: SystemState<S>, m: Move<S>, i: int)
    requires
        s.inv(),
        s.enabled(m),
        m == Move::<S>::Start(i) || m == Move::<S>::Take(i) || m == Move::<S>::Finish(i),
    ensures
        !s.faulty(m),
        s.next(m).inv(),
{
    let t = s.next(m);
    let c = s.coordinator;
    assert(link_ok(c, i, s.links[i]));
    assert forall|j: int| 0 <= j < t.links.len() implies link_ok(
        t.coordinator,
        j,
        #[trigger] t.links[j],
    ) by {
        if j != i {
            assert(link_ok(c, j, s.links[j]));
        }
    }
    lemma_count_idle_change(s.links, t.links, i);
}

/// A message or an event that changes neither the queue nor any drawlist.
proof fn lemma_quiet_fits<S>(s: SystemState<S>, m: Move<S>)
    requires
        s.inv(),
        s.enabled(m),
        m is Client || m is Arrive || m is Poll || m is Present,
        s.coordinator.next(s.event(m)).0.slots == s.coordinator.slots,
        s.coordinator.next(s.event(m)).0.waiting == s.coordinator.waiting,
        s.coordinator.next(s.event(m)).0.workers == s.coordinator.workers,
        s.coordinator.next(s.event(m)).1 is Ok,
        s.coordinator.next(s.event(m)).0.phase is Terminated ==> s.coordinator.phase
            is Terminated,
        !(s.coordinator.next(s.event(m)).1 matches Ok(ActionView::Dispatch { .. })),
        !(s.coordinator.next(s.event(m)).1 matches Ok(ActionView::Terminate { .. })),
        !(s.coordinator.next(s.event(m)).1 matches Ok(ActionView::Shutdown { .. })),
        m matches Move::Arrive(i) ==> s.links[i].worker.phase is AwaitingResource && (s.event(m)
            matches Event::Command(RenderCommand::Setup(_))),
        !(m is Arrive) ==> !(s.coordinator.next(s.event(m)).1 matches Ok(
            ActionView::Handoff { .. },
        )) && !(s.event(m) matches Event::Command(RenderCommand::Setup(_))),
    ensures
        s.next(m).inv(),
{
    let t = s.next(m);
    let c = s.coordinator;
    let event = s.event(m);
    let outcome = c.next(event).1;
    lemma_next_inv(c, event);
    assert forall|j: int| 0 <= j < t.links.len() implies link_ok(
        t.coordinator,
        j,
        #[trigger] t.links[j],
    ) && idle(t.links[j]) == idle(s.links[j]) by {
        assert(link_ok(c, j, s.links[j]));
        if m == Move::<S>::Arrive(j) {
            assert(s.links[j].sent.drop_first() =~= Seq::empty());
            assert(reply_to(event, outcome, j).len() == 1);
            assert(reply_to(event, outcome, j)[0] is Resource);
        } else {
            assert(reply_to(event, outcome, j) =~= Seq::empty());
            lemma_link_frame(c, t.coordinator, j, s.links[j], t.links[j]);
        }
    }
    lemma_count_idle_same(s.links, t.links);
}

/// The announcement of a worker arrives.
proof fn lemma_announce_fits<S>(s: SystemState<S>, i: int)
    requires
        s.inv(),
        s.enabled(Move::Arrive(i)),
        s.links[i].sent.first() is Waiting,
    ensures
        !s.faulty(Move::Arrive(i)),
        s.next(Move::Arrive(i)).inv(),
{
    let m = Move::<S>::Arrive(i);
    let t = s.next(m);
    let c = s.coordinator;
    let event = s.event(m);
    let outcome = c.next(event).1;
    let reply = s.links[i].worker.reply;
    assert(link_ok(c, i, s.links[i]));
    assert(event == Event::<S>::Command(RenderCommand::Waiting(reply)));
    lemma_count_idle_positive(s.links, i);
    assert(c.announce_violation(reply) is None);
    assert(!(c.phase is Terminated));
    lemma_next_inv(c, event);
    if !(c.phase is Draining) && c.can_pair() {
        let d = c.free.last();
        assert(c.slots[d as int] is Free);
        lemma_count_update(c.slots, d as int, t.coordinator.slots[d as int], Stage::Bound);
    }
    assert forall|j: int| 0 <= j < t.links.len() implies link_ok(
        t.coordinator,
        j,
        #[trigger] t.links[j],
    ) && (j != i ==> idle(t.links[j]) == idle(s.links[j])) by {
        let other = s.links[j].worker.reply;
        assert(link_ok(c, j, s.links[j]));
        if !(c.phase is Draining) && c.can_pair() {
            let d = c.free.last();
            lemma_holds_update(c.slots, d as int, t.coordinator.slots[d as int], other);
        }
        if j == i {
            let answer = reply_to(event, outcome, j);
            assert(s.links[j].sent.drop_first() =~= Seq::empty());
            if c.phase is Draining {
                assert(outcome matches Ok(ActionView::Terminate { replies }) ==> replies[0]
                    == reply);
                assert(outcome matches Ok(ActionView::Shutdown { replies, .. }) ==> replies[0]
                    == reply);
                assert(answer =~= seq![WorkerEvent::Reply(None)]);
                assert(link_ok(t.coordinator, j, t.links[j]));
            } else if c.can_pair() {
                assert(answer =~= seq![WorkerEvent::Reply(Some(c.free.last()))]);
                assert(link_ok(t.coordinator, j, t.links[j]));
            } else {
                assert(t.coordinator.waiting.last() == reply);
                assert(reply_to(event, outcome, j) =~= Seq::empty());
                assert(link_ok(t.coordinator, j, t.links[j]));
            }
        } else {
            assert(reply_to(event, outcome, j) =~= Seq::empty());
            if !(c.phase is Draining) && !c.can_pair() {
                if t.coordinator.waiting.contains(other) {
                    let k = choose|k: int|
                        0 <= k < t.coordinator.waiting.len() && t.coordinator.waiting[k] == other;
                    assert(c.waiting[k] == other);
                }
                if c.waiting.contains(other) {
                    let k = choose|k: int| 0 <= k < c.waiting.len() && c.waiting[k] == other;
                    assert(t.coordinator.waiting[k] == other);
                }
            }
            lemma_link_frame(c, t.coordinator, j, s.links[j], t.links[j]);
        }
    }
    lemma_count_idle_change(s.links, t.links, i);
    assert forall|k: int| 0 <= k < t.coordinator.waiting.len() implies (
    #[trigger] t.coordinator.waiting[k]) < t.links.len() by {
        if k < c.waiting.len() {
            assert(t.coordinator.waiting[k] == c.waiting[k]);
        }
    }
}

/// A drawlist that a worker gives back arrives.
proof fn lemma_complete_fits<S>(s: SystemState<S>, i: int)
    requires
        s.inv(),
        s.enabled(Move::Arrive(i)),
        s.links[i].sent.first() is Complete,
    ensures
        !s.faulty(Move::Arrive(i)),
        s.next(Move::Arrive(i)).inv(),
{
    let m = Move::<S>::Arrive(i);
    let t = s.next(m);
    let c = s.coordinator;
    let event = s.event(m);
    let outcome = c.next(event).1;
    let reply = s.links[i].worker.reply;
    let d = s.links[i].sent.first()->Complete_0;
    assert(link_ok(c, i, s.links[i]));
    assert(c.slots[d as int].held_by(reply));
    lemma_count_positive(c.slots, d as int, Stage::Bound);
    assert(!(c.phase is Terminated));
    lemma_next_inv(c, event);
    lemma_count_update(c.slots, d as int, t.coordinator.slots[d as int], Stage::Bound);
    assert forall|j: int| 0 <= j < t.links.len() implies link_ok(
        t.coordinator,
        j,
        #[trigger] t.links[j],
    ) && (j != i ==> idle(t.links[j]) == idle(s.links[j])) by {
        let other = s.links[j].worker.reply;
        assert(link_ok(c, j, s.links[j]));
        lemma_holds_update(c.slots, d as int, t.coordinator.slots[d as int], other);
        assert(reply_to(event, outcome, j) =~= Seq::empty());
        if j == i {
            assert(s.links[j].sent.drop_first() =~= seq![RenderCommand::<S>::Waiting(reply)]);
        } else {
            lemma_link_frame(c, t.coordinator, j, s.links[j], t.links[j]);
        }
    }
    lemma_count_idle_change(s.links, t.links, i);
    assert forall|e: int| 0 <= e < t.coordinator.slots.len() implies ((
    #[trigger] t.coordinator.slots[e]).holder() matches Some(reply) ==> reply
        < t.links.len()) by {
        if e != d as int {
            assert(t.coordinator.slots[e] == c.slots[e]);
        }
    }
}

/// An empty poll pairs the worker queued last with a free drawlist.
proof fn lemma_poll_fits<S>(s: SystemState<S>)
    requires
        s.inv(),
        s.enabled(Move::Poll),
    ensures
        !s.faulty(Move::Poll),
        s.next(Move::Poll).inv(),
{
    let m = Move::<S>::Poll;
    let t = s.next(m);
    let c = s.coordinator;
    let event = s.event(m);
    let outcome = c.next(event).1;
    assert(c.waiting.len() > 0);
    assert(!(c.phase is Terminated) && !(c.phase is Draining));
    let last = c.waiting.len() - 1;
    let reply = c.waiting[last];
    let i = reply as int;
    let d = c.free.last();
    assert(c.waiting.contains(reply));
    assert(link_ok(c, i, s.links[i]));
    assert(c.slots[d as int] is Free);
    lemma_next_inv(c, event);
    lemma_count_update(c.slots, d as int, t.coordinator.slots[d as int], Stage::Bound);
    assert forall|j: int| 0 <= j < t.links.len() implies link_ok(
        t.coordinator,
        j,
        #[trigger] t.links[j],
    ) && idle(t.links[j]) == idle(s.links[j]) by {
        let other = s.links[j].worker.reply;
        assert(link_ok(c, j, s.links[j]));
        lemma_holds_update(c.slots, d as int, t.coordinator.slots[d as int], other);
        if t.coordinator.waiting.contains(other) {
            let k = choose|k: int|
                0 <= k < t.coordinator.waiting.len() && t.coordinator.waiting[k] == other;
            assert(c.waiting[k] == other);
            assert(c.waiting[k] != c.waiting[last]);
        }
        if c.waiting.contains(other) && other != reply {
            let k = choose|k: int| 0 <= k < c.waiting.len() && c.waiting[k] == other;
            assert(t.coordinator.waiting[k] == other);
        }
        if j == i {
            assert(reply_to(event, outcome, j) =~= seq![WorkerEvent::Reply(Some(d))]);
            assert(link_ok(t.coordinator, j, t.links[j]));
        } else {
            assert(reply_to(event, outcome, j) =~= Seq::empty());
            lemma_link_frame(c, t.coordinator, j, s.links[j], t.links[j]);
        }
    }
    lemma_count_idle_same(s.links, t.links);
    assert forall|k: int| 0 <= k < t.coordinator.waiting.len() implies (
    #[trigger] t.coordinator.waiting[k]) < t.links.len() by {
        assert(t.coordinator.waiting[k] == c.waiting[k]);
    }
    assert forall|e: int| 0 <= e < t.coordinator.slots.len() implies ((
    #[trigger] t.coordinator.slots[e]).holder() matches Some(reply) ==> reply
        < t.links.len()) by {
        if e != d as int {
            assert(t.coordinator.slots[e] == c.slots[e]);
        }
    }
}

/// A frame has been presented.
proof fn lemma_present_fits<S>(s: SystemState<S>, drawlist: DrawlistId, now: u64)
    requires
        s.inv(),
        s.enabled(Move::Present(drawlist, now)),
    ensures
        !s.faulty(Move::Present(drawlist, now)),
        s.next(Move::Present(drawlist, now)).inv(),
{
    let m = Move::<S>::Present(drawlist, now);
    let t = s.next(m);
    let c = s.coordinator;
    let event = s.event(m);
    let outcome = c.next(event).1;
    let d = drawlist as int;
    lemma_count_positive(c.slots, d, Stage::Prepared);
    lemma_next_inv(c, event);
    if c.phase is Terminated {
        assert(t.coordinator == c);
    } else {
        lemma_count_update(c.slots, d, DrawlistState::Free, Stage::Bound);
    }
    assert forall|j: int| 0 <= j < t.links.len() implies link_ok(
        t.coordinator,
        j,
        #[trigger] t.links[j],
    ) && idle(t.links[j]) == idle(s.links[j]) by {
        assert(link_ok(c, j, s.links[j]));
        if !(c.phase is Terminated) {
            lemma_holds_update(c.slots, d, DrawlistState::Free, s.links[j].worker.reply);
        }
        assert(reply_to(event, outcome, j) =~= Seq::empty());
        lemma_link_frame(c, t.coordinator, j, s.links[j], t.links[j]);
    }
    lemma_count_idle_same(s.links, t.links);
    assert forall|e: int| 0 <= e < t.coordinator.slots.len() implies ((
    #[trigger] t.coordinator.slots[e]).holder() matches Some(reply) ==> reply
        < t.links.len()) by {
        if e != d {
            assert(t.coordinator.slots[e] == c.slots[e]);
        }
    }
}

/// The client asks for the shutdown while the loop runs.
proof fn lemma_shutdown_fits<S>(s: SystemState<S>, ack: ReplyId)
    requires
        s.inv(),
        s.coordinator.phase is AwaitingResourceSetup || s.coordinator.phase is Running,
    ensures
        !s.faulty(Move::Client(RenderCommand::Finish(ack))),
        s.next(Move::Client(RenderCommand::Finish(ack))).inv(),
{
    let m = Move::<S>::Client(RenderCommand::Finish(ack));
    let t = s.next(m);
    let c = s.coordinator;
    let event = s.event(m);
    let outcome = c.next(event).1;
    let replies = c.waiting.reverse();
    lemma_next_inv(c, event);
    assert forall|j: int| 0 <= j < t.links.len() implies link_ok(
        t.coordinator,
        j,
        #[trigger] t.links[j],
    ) && idle(t.links[j]) == idle(s.links[j]) by {
        let other = s.links[j].worker.reply;
        assert(link_ok(c, j, s.links[j]));
        assert(other == j as ReplyId);
        if c.waiting.contains(other) {
            let k = choose|k: int| 0 <= k < c.waiting.len() && c.waiting[k] == other;
            assert(replies[c.waiting.len() - 1 - k] == other);
            assert(replies.contains(other));
            assert(reply_to(event, outcome, j) =~= seq![WorkerEvent::Reply(None)]);
            assert(link_ok(t.coordinator, j, t.links[j]));
        } else {
            if replies.contains(other) {
                let k = choose|k: int| 0 <= k < replies.len() && replies[k] == other;
                assert(c.waiting[c.waiting.len() - 1 - k] == other);
            }
            assert(reply_to(event, outcome, j) =~= Seq::empty());
            lemma_link_frame(c, t.coordinator, j, s.links[j], t.links[j]);
        }
    }
    lemma_count_idle_same(s.links, t.links);
}

/// Fit. No move of the renderer runs into a fault: the coordinator never
/// meets a violation of the protocol, and no worker meets an event that
/// cannot happen in its phase. Every move leads from a valid state to a
/// valid state.
pub proof fn lemma_move_fits<S>(s: SystemState<S>, m: Move<S>)
    requires
        s.inv(),
        s.enabled(m),
    ensures
        !s.faulty(m),
        s.next(m).inv(),
{
    let c = s.coordinator;
    match m {
        Move::Start(i) => lemma_work_fits(s, m, i),
        Move::Take(i) => lemma_work_fits(s, m, i),
        Move::Finish(i) => lemma_work_fits(s, m, i),
        Move::Poll => lemma_poll_fits(s),
        Move::Present(drawlist, now) => lemma_present_fits(s, drawlist, now),
        Move::Client(command) => {
            if command is Finish && (c.phase is AwaitingResourceSetup || c.phase is Running) {
                lemma_shutdown_fits(s, command->Finish_0);
            } else {
                lemma_quiet_fits(s, m);
            }
        },
        Move::Arrive(i) => {
            assert(link_ok(c, i, s.links[i]));
            if s.links[i].sent.first() is Waiting {
                lemma_announce_fits(s, i);
            } else if s.links[i].sent.first() is Complete {
                lemma_complete_fits(s, i);
            } else {
                lemma_count_idle_positive(s.links, i);
                lemma_quiet_fits(s, m);
            }
        },
    }
}

/// The renderer starts in a valid state.
pub proof fn lemma_start_fits<S>(s: SystemState<S>)
    requires
        s.starts(),
    ensures
        s.inv(),
{
    let c = s.coordinator;
    lemma_init_inv(c.db, c.pool_size(), s.links.len(), c.resource, c.time);
    lemma_count_all(c.slots, Stage::Free);
    lemma_count_partition(c.slots);
    lemma_all_idle(s.links);
    assert forall|i: int| 0 <= i < s.links.len() implies link_ok(c, i, #[trigger] s.links[i]) by {
        if holds(c.slots, s.links[i].worker.reply) {
            let d = choose|d: int|
                0 <= d < c.slots.len() && #[trigger] c.slots[d].held_by(s.links[i].worker.reply);
            assert(c.slots[d] is Free);
        }
    }
}

/// Workers that have not started are all idle.
proof fn lemma_all_idle<S>(links: Seq<Link<S>>)
    requires
        forall|i: int| 0 <= i < links.len() ==> (#[trigger] links[i]).worker.phase is Created,
    ensures
        count_idle(links) == links.len(),
    decreases links.len(),
{
    if links.len() > 0 {
        assert forall|i: int| 0 <= i < links.drop_last().len() implies (
        #[trigger] links.drop_last()[i]).worker.phase is Created by {
            assert(links.drop_last()[i] == links[i]);
        }
        lemma_all_idle(links.drop_last());
        assert(links.last() == links[links.len() - 1]);
    }
}

/// Fit, over a whole run. From a valid state, moves that can each be made
/// when its turn comes never run into a fault and end in a valid state.
pub proof fn lemma_run_fits<S>(s: SystemState<S>, moves: Seq<Move<S>>)
    requires
        s.inv(),
        s.admits(moves),
    ensures
        s.run(moves).inv(),
        forall|k: int| 0 <= k < moves.len() ==> !s.run(moves.take(k)).faulty(#[trigger] moves[k]),
    decreases moves.len(),
{
    if moves.len() > 0 {
        let earlier = moves.drop_last();
        let n = earlier.len() as int;
        assert forall|k: int| 0 <= k < earlier.len() implies s.run(earlier.take(k)).enabled(
            #[trigger] earlier[k],
        ) by {
            assert(earlier.take(k) == moves.take(k));
            assert(earlier[k] == moves[k]);
        }
        lemma_run_fits(s, earlier);
        assert(moves.take(n) == earlier);
        assert(s.run(earlier).enabled(moves[n]));
        lemma_move_fits(s.run(earlier), moves.last());
        assert forall|k: int| 0 <= k < moves.len() implies !s.run(moves.take(k)).faulty(
            #[trigger] moves[k],
        ) by {
            if k < n {
                assert(earlier.take(k) == moves.take(k));
                assert(earlier[k] == moves[k]);
            }
        }
    }
}

/// Single ownership, across the threads. In every valid state of the
/// renderer each drawlist is in exactly one place: in the idle pool, queued
/// for submission, on its way to a worker, in the hands of a worker, or on
/// its way back.
pub proof fn lemma_one_place<S>(s: SystemState<S>, drawlist: DrawlistId)
    requires
        s.inv(),
        drawlist < s.coordinator.pool_size(),
    ensures
        exists|place: Place| s.at(drawlist, place),
        forall|p: Place, q: Place| s.at(drawlist, p) && s.at(drawlist, q) ==> p == q,
{
    let c = s.coordinator;
    let d = drawlist as int;
    assert forall|i: int|
        0 <= i < s.links.len() && (s.at(drawlist, Place::ToWorker(i)) || s.at(
            drawlist,
            Place::WithWorker(i),
        ) || s.at(drawlist, Place::FromWorker(i))) implies c.slots[d].held_by(i as ReplyId) by {
        assert(link_ok(c, i, s.links[i]));
    }
    match c.slots[d] {
        DrawlistState::Free => {
            assert(s.at(drawlist, Place::Pool));
        },
        DrawlistState::Prepared { .. } => {
            assert(s.at(drawlist, Place::Submission));
        },
        DrawlistState::Bound { reply, .. } => {
            let i = reply as int;
            let link = s.links[i];
            assert(link_ok(c, i, link));
            assert(c.slots[d].held_by(reply));
            assert(holds(c.slots, reply));
            lemma_single_owner(c, d);
            if link.worker.phase is Preparing {
                assert(s.at(drawlist, Place::WithWorker(i)));
            } else if link.sent.len() == 2 {
                assert(link.sent[0] == RenderCommand::<S>::Complete(drawlist));
                assert(s.at(drawlist, Place::FromWorker(i)));
            } else {
                assert(link.inbox[0] == WorkerEvent::Reply(Some(drawlist)));
                assert(s.at(drawlist, Place::ToWorker(i)));
            }
        },
    }
    assert forall|p: Place, q: Place| s.at(drawlist, p) && s.at(drawlist, q) implies p == q by {
        if listed(c.free, d) {
            let k = choose|k: int| 0 <= k < c.free.len() && #[trigger] c.free[k] == d;
            assert(c.slots[c.free[k] as int] is Free);
        }
        lemma_place_names_worker(s, drawlist, p);
        lemma_place_names_worker(s, drawlist, q);
    }
}

/// A drawlist that is on its way or in a worker's hands is bound to that
/// worker, and the worker's state says which of the three it is.
proof fn lemma_place_names_worker<S>(s: SystemState<S>, drawlist: DrawlistId, place: Place)
    requires
        s.inv(),
        drawlist < s.coordinator.pool_size(),
        s.at(drawlist, place),
    ensures
        place matches Place::ToWorker(i) ==> s.coordinator.slots[drawlist as int].held_by(
            i as ReplyId,
        ) && s.links[i].inbox.len() == 1,
        place matches Place::WithWorker(i) ==> s.coordinator.slots[drawlist as int].held_by(
            i as ReplyId,
        ) && s.links[i].inbox.len() == 0 && s.links[i].sent.len() == 0,
        place matches Place::FromWorker(i) ==> s.coordinator.slots[drawlist as int].held_by(
            i as ReplyId,
        ) && s.links[i].sent.len() == 2,
{
    let c = s.coordinator;
    match place {
        Place::ToWorker(i) => {
            assert(link_ok(c, i, s.links[i]));
        },
        Place::WithWorker(i) => {
            assert(link_ok(c, i, s.links[i]));
        },
        Place::FromWorker(i) => {
            assert(link_ok(c, i, s.links[i]));
        },
        _ => {},
    }
}

} // verus!

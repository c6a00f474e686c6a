//! The shutdown comes to an end: once it has begun, some worker can always
//! make its next move, and each such move brings the end one step nearer.

use crate::command::{DrawlistId, RenderCommand};
use crate::drawlist::holds;
use crate::fit::lemma_move_fits;
use crate::model::{acknowledges, Event};
use crate::safety::lemma_single_owner;
use crate::system::{link_ok, reply_to, Link, Move, SystemState};
use crate::worker::{WorkerEvent, WorkerPhase};
use vstd::prelude::*;

verus! {

/// The moves that are still to be made for a worker, by itself or by the
/// arrival of its messages, until it has stopped, once the shutdown has
/// begun.
pub open spec fn rank<S>(link: Link<S>) -> nat {
    match link.worker.phase {
        WorkerPhase::Created => 5,
        WorkerPhase::AwaitingResource => if link.inbox.len() > 0 {
            3
        } else {
            4
        },
        WorkerPhase::Preparing { .. } => 4,
        WorkerPhase::Ready => if link.sent.len() == 2 {
            3
        } else if link.sent.len() == 1 {
            2
        } else if link.inbox.len() == 0 {
            0
        } else if link.inbox[0] == WorkerEvent::Reply(None) {
            1
        } else {
            5
        },
        WorkerPhase::Stopped => 0,
    }
}

/// The moves that are still to be made for all the workers.
pub open spec fn remaining<S>(links: Seq<Link<S>>) -> nat
    decreases links.len(),
{
    if links.len() == 0 {
        0
    } else {
        remaining(links.drop_last()) + rank(links.last())
    }
}

/// A move of a worker, or the arrival of a message of a worker.
pub open spec fn of_worker<S>(m: Move<S>) -> bool {
    m is Start || m is Take || m is Finish || m is Arrive
}

proof fn lemma_remaining_change<S>(a: Seq<Link<S>>, b: Seq<Link<S>>, i: int)
    requires
        a.len() == b.len(),
        0 <= i < a.len(),
        forall|j: int| 0 <= j < a.len() && j != i ==> rank(#[trigger] a[j]) == rank(b[j]),
    ensures
        remaining(b) + rank(a[i]) == remaining(a) + rank(b[i]),
    decreases a.len(),
{
    let last = a.len() - 1;
    if i == last {
        lemma_remaining_same(a.drop_last(), b.drop_last());
    } else {
        assert(rank(a[last]) == rank(b[last]));
        lemma_remaining_change(a.drop_last(), b.drop_last(), i);
    }
}

proof fn lemma_remaining_same<S>(a: Seq<Link<S>>, b: Seq<Link<S>>)
    requires
        a.len() == b.len(),
        forall|j: int| 0 <= j < a.len() ==> rank(#[trigger] a[j]) == rank(b[j]),
    ensures
        remaining(a) == remaining(b),
    decreases a.len(),
{
    if a.len() > 0 {
        let last = a.len() - 1;
        assert(rank(a[last]) == rank(b[last]));
        lemma_remaining_same(a.drop_last(), b.drop_last());
    }
}

proof fn lemma_remaining_zero<S>(a: Seq<Link<S>>)
    requires
        remaining(a) == 0,
    ensures
        forall|i: int| 0 <= i < a.len() ==> rank(#[trigger] a[i]) == 0,
    decreases a.len(),
{
    if a.len() > 0 {
        lemma_remaining_zero(a.drop_last());
        assert forall|i: int| 0 <= i < a.len() implies rank(#[trigger] a[i]) == 0 by {
            if i < a.len() - 1 {
                assert(a.drop_last()[i] == a[i]);
            }
        }
    }
}

/// Progress. During the shutdown every move of a worker, and every arrival
/// of a message of a worker, takes one from the moves that remain. The
/// shutdown goes on or ends, acknowledged, with that move.
pub proof fn lemma_shutdown_advances<S>(s: SystemState<S>, m: Move<S>)
    requires
        s.inv(),
        s.coordinator.phase is Draining,
        s.enabled(m),
        of_worker(m),
    ensures
        remaining(s.next(m).links) + 1 == remaining(s.links),
        s.next(m).coordinator.phase == s.coordinator.phase || (s.next(m).coordinator.phase
            is Terminated && acknowledges(s.coordinator.next(s.event(m)).1)),
{
    let t = s.next(m);
    let c = s.coordinator;
    lemma_move_fits(s, m);
    let i = match m {
        Move::Start(i) => i,
        Move::Take(i) => i,
        Move::Finish(i) => i,
        Move::Arrive(i) => i,
        _ => 0,
    };
    assert(link_ok(c, i, s.links[i]));
    if m is Arrive {
        let event = s.event(m);
        let outcome = c.next(event).1;
        let sent = s.links[i].sent;
        assert forall|j: int| 0 <= j < s.links.len() && j != i implies rank(
            #[trigger] s.links[j],
        ) == rank(t.links[j]) by {
            assert(link_ok(c, j, s.links[j]));
            assert(reply_to(event, outcome, j) =~= Seq::empty());
            assert(t.links[j].inbox =~= s.links[j].inbox);
        }
        if sent.first() is Complete {
            assert(reply_to(event, outcome, i) =~= Seq::empty());
            assert(sent.drop_first().len() == 1);
        } else if sent.first() is Waiting {
            assert(outcome matches Ok(crate::model::ActionView::Terminate { replies })
                ==> replies[0] == s.links[i].worker.reply);
            assert(outcome matches Ok(crate::model::ActionView::Shutdown { replies, .. })
                ==> replies[0] == s.links[i].worker.reply);
            assert(reply_to(event, outcome, i) =~= seq![WorkerEvent::Reply(None)]);
            assert(sent.drop_first().len() == 0);
        } else {
            assert(event == Event::<S>::Command(RenderCommand::Setup(s.links[i].worker.reply)));
            assert(reply_to(event, outcome, i) =~= seq![WorkerEvent::Resource { granted: false }]);
            assert(sent.drop_first().len() == 0);
        }
    } else {
        assert forall|j: int| 0 <= j < s.links.len() && j != i implies rank(
            #[trigger] s.links[j],
        ) == rank(t.links[j]) by {}
        if m is Take {
            assert(s.links[i].inbox.drop_first().len() == 0);
        }
    }
    lemma_remaining_change(s.links, t.links, i);
}

/// No stall. While the shutdown goes on, some worker can make a move or a
/// message of some worker can arrive.
pub proof fn lemma_shutdown_never_stalls<S>(s: SystemState<S>)
    requires
        s.inv(),
        s.coordinator.phase is Draining,
    ensures
        remaining(s.links) > 0,
        exists|m: Move<S>| s.enabled(m) && of_worker(m),
{
    let c = s.coordinator;
    if remaining(s.links) == 0 {
        lemma_remaining_zero(s.links);
    }
    // Somebody is still to be told: a worker that is idle or has a drawlist.
    if crate::system::count_idle(s.links) > 0 {
        let i = lemma_some_idle(s.links);
        assert(link_ok(c, i, s.links[i]));
        lemma_link_can_move(s, i);
    } else {
        assert(c.in_flight() > 0);
        if forall|d: int| 0 <= d < c.slots.len() ==> !((#[trigger] c.slots[d]) is Bound) {
            crate::drawlist::lemma_count_all_not(c.slots, crate::drawlist::Stage::Bound);
        }
        let d = choose|d: int| 0 <= d < c.slots.len() && (#[trigger] c.slots[d]) is Bound;
        let i = c.slots[d]->Bound_reply as int;
        assert(link_ok(c, i, s.links[i]));
        assert(c.slots[d].held_by(i as crate::command::ReplyId));
        assert(crate::drawlist::holds(c.slots, i as crate::command::ReplyId));
        lemma_link_can_move(s, i);
    }
    if remaining(s.links) == 0 {
        assert(false);
    }
}

/// Where some worker is idle, here is one.
proof fn lemma_some_idle<S>(a: Seq<Link<S>>) -> (i: int)
    requires
        crate::system::count_idle(a) > 0,
    ensures
        0 <= i < a.len(),
        crate::system::idle(a[i]),
    decreases a.len(),
{
    if crate::system::idle(a.last()) {
        a.len() - 1
    } else {
        lemma_some_idle(a.drop_last())
    }
}

/// A worker that has not stopped and is not queued can move, or a message
/// of it can arrive.
proof fn lemma_link_can_move<S>(s: SystemState<S>, i: int)
    requires
        s.inv(),
        0 <= i < s.links.len(),
        s.coordinator.waiting.len() == 0,
        crate::system::idle(s.links[i]) || crate::drawlist::holds(
            s.coordinator.slots,
            s.links[i].worker.reply,
        ),
    ensures
        exists|m: Move<S>| s.enabled(m) && of_worker(m),
        rank(s.links[i]) > 0,
{
    let link = s.links[i];
    assert(link_ok(s.coordinator, i, link));
    if link.worker.phase is Created {
        assert(s.enabled(Move::Start(i)) && of_worker(Move::<S>::Start(i)));
    } else if link.worker.phase is Preparing {
        assert(s.enabled(Move::Finish(i)) && of_worker(Move::<S>::Finish(i)));
    } else if link.sent.len() > 0 {
        assert(s.enabled(Move::Arrive(i)) && of_worker(Move::<S>::Arrive(i)));
    } else {
        assert(link.inbox.len() > 0);
        assert(s.enabled(Move::Take(i)) && of_worker(Move::<S>::Take(i)));
    }
}

/// During the shutdown no other move changes what remains to be done, and
/// none ends the shutdown.
pub proof fn lemma_shutdown_waits<S>(s: SystemState<S>, m: Move<S>)
    requires
        s.inv(),
        s.coordinator.phase is Draining,
        s.enabled(m),
        !of_worker(m),
    ensures
        remaining(s.next(m).links) == remaining(s.links),
        s.next(m).coordinator.phase == s.coordinator.phase,
{
    let t = s.next(m);
    let c = s.coordinator;
    let event = s.event(m);
    let outcome = c.next(event).1;
    assert forall|j: int| 0 <= j < s.links.len() implies rank(#[trigger] s.links[j]) == rank(
        t.links[j],
    ) by {
        assert(reply_to(event, outcome, j) =~= Seq::empty());
        assert(t.links[j].inbox =~= s.links[j].inbox);
    }
    lemma_remaining_same(s.links, t.links);
}

/// How many of `moves` are moves of workers or arrivals of their messages.
pub open spec fn worker_moves<S>(moves: Seq<Move<S>>) -> nat
    decreases moves.len(),
{
    if moves.len() == 0 {
        0
    } else {
        worker_moves(moves.drop_last()) + if of_worker(moves.last()) {
            1nat
        } else {
            0nat
        }
    }
}

/// The shutdown ends. A run during which the shutdown goes on holds no more
/// moves of workers, arrivals included, than remained to be made at its
/// start: after that many the coordinator has acknowledged the shutdown
/// and left its loop.
pub proof fn lemma_shutdown_ends<S>(s: SystemState<S>, moves: Seq<Move<S>>)
    requires
        s.inv(),
        s.admits(moves),
        forall|k: int|
            0 <= k < moves.len() ==> (#[trigger] s.run(moves.take(k))).coordinator.phase
                is Draining,
    ensures
        remaining(s.run(moves).links) + worker_moves(moves) == remaining(s.links),
        worker_moves(moves) <= remaining(s.links),
    decreases moves.len(),
{
    if moves.len() > 0 {
        let earlier = moves.drop_last();
        let n = earlier.len() as int;
        assert forall|k: int| 0 <= k < earlier.len() implies s.run(earlier.take(k)).enabled(
            #[trigger] earlier[k],
        ) by {
            assert(earlier.take(k) == moves.take(k));
            assert(earlier[k] == moves[k]);
        }
        assert forall|k: int| 0 <= k < earlier.len() implies (#[trigger] s.run(
            earlier.take(k),
        )).coordinator.phase is Draining by {
            assert(earlier.take(k) == moves.take(k));
        }
        lemma_shutdown_ends(s, earlier);
        crate::fit::lemma_run_fits(s, earlier);
        assert(moves.take(n) == earlier);
        assert(s.run(moves.take(n)).coordinator.phase is Draining);
        assert(s.run(earlier).enabled(moves[n]));
        if of_worker(moves.last()) {
            lemma_shutdown_advances(s.run(earlier), moves.last());
        } else {
            lemma_shutdown_waits(s.run(earlier), moves.last());
        }
    }
}

/// The moves that are still to be made until a drawlist that is out is
/// back with the coordinator, by the worker that has it or by the arrival
/// of its message.
pub open spec fn way_back<S>(link: Link<S>) -> nat {
    if link.inbox.len() > 0 {
        3
    } else if link.worker.phase is Preparing {
        2
    } else {
        1
    }
}

/// No lost work, across the threads. A drawlist that is out is on its way
/// to a worker, in its hands, or on its way back. The worker that it is
/// bound to can always make the next move: take it, finish preparing it, or
/// have its message arrive. Each of these moves brings the drawlist one
/// step nearer, and with the last of them it is back with the coordinator,
/// in the pool or queued for submission.
pub proof fn lemma_drawlist_comes_back<S>(s: SystemState<S>, drawlist: DrawlistId, m: Move<S>)
    requires
        s.inv(),
        drawlist < s.coordinator.pool_size(),
        s.coordinator.slots[drawlist as int] is Bound,
        ({
            let i = s.coordinator.slots[drawlist as int]->Bound_reply as int;
            m == Move::<S>::Take(i) || m == Move::<S>::Finish(i) || m == Move::<S>::Arrive(i)
        }),
    ensures
        ({
            let i = s.coordinator.slots[drawlist as int]->Bound_reply as int;
            let t = s.next(m);
            &&& 0 <= i < s.links.len()
            &&& s.enabled(Move::Take(i)) || s.enabled(Move::Finish(i)) || s.enabled(
                Move::Arrive(i),
            )
            &&& s.enabled(m) ==> if way_back(s.links[i]) == 1 {
                !(t.coordinator.slots[drawlist as int] is Bound)
            } else {
                &&& t.coordinator.slots[drawlist as int] == s.coordinator.slots[drawlist as int]
                &&& way_back(t.links[i]) + 1 == way_back(s.links[i])
            }
        }),
{
    let c = s.coordinator;
    let d = drawlist as int;
    let reply = c.slots[d]->Bound_reply;
    let i = reply as int;
    let link = s.links[i];
    assert(link_ok(c, i, link));
    assert(c.slots[d].held_by(reply));
    assert(holds(c.slots, reply));
    lemma_single_owner(c, d);
    if s.enabled(m) {
        lemma_move_fits(s, m);
        let t = s.next(m);
        if m is Arrive {
            assert(link.sent[0] == RenderCommand::<S>::Complete(drawlist));
        } else if m is Take {
            assert(link.inbox.drop_first().len() == 0);
        }
    }
}

} // verus!

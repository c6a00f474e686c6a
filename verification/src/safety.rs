//! What every run of the coordinator guarantees, proved of the state machine
//! in `model` from its invariant.

use crate::command::{DrawlistId, ObjectKey, RenderCommand, ReplyId, NO_OBJECT};
use crate::drawlist::{holds, lemma_count_partition, lemma_count_zero, DrawlistState, Stage};
use crate::model::{
    acknowledges, listed, ActionView, CoordinatorState, Event, Owner, ProtocolViolation,
};
use crate::validity::{lemma_next_inv, lemma_run_inv};
use vstd::prelude::*;

verus! {

/// Single ownership. In every valid state each drawlist of the pool has
/// exactly one owner: the idle pool, one worker, or the submission queue.
/// The idle pool lists it at most once, and no worker has two drawlists.
pub proof fn lemma_single_owner<S>(s: CoordinatorState<S>, d: int)
    requires
        s.inv(),
        0 <= d < s.pool_size(),
    ensures
        exists|owner: Owner| s.owned_by(d, owner),
        forall|a: Owner, b: Owner| s.owned_by(d, a) && s.owned_by(d, b) ==> a == b,
        forall|i: int, j: int|
            0 <= i < s.free.len() && 0 <= j < s.free.len() && s.free[i] == d && s.free[j] == d
                ==> i == j,
        forall|e: int, reply: ReplyId|
            0 <= e < s.pool_size() && s.slots[d].held_by(reply) && s.slots[e].held_by(reply)
                ==> e == d,
{
    match s.slots[d] {
        DrawlistState::Free => {
            assert(s.owned_by(d, Owner::Pool));
        },
        DrawlistState::Bound { reply, .. } => {
            assert(s.owned_by(d, Owner::Worker(reply)));
        },
        DrawlistState::Prepared { .. } => {
            assert(s.owned_by(d, Owner::Submission));
        },
    }
    assert forall|a: Owner, b: Owner| s.owned_by(d, a) && s.owned_by(d, b) implies a == b by {
        if listed(s.free, d) {
            let i = choose|i: int| 0 <= i < s.free.len() && #[trigger] s.free[i] == d;
            assert(s.slots[s.free[i] as int] is Free);
        }
    }
    assert forall|i: int, j: int|
        0 <= i < s.free.len() && 0 <= j < s.free.len() && s.free[i] == d && s.free[j]
            == d implies i == j by {
        if i < j {
            assert(s.free[i] != s.free[j]);
        }
        if j < i {
            assert(s.free[j] != s.free[i]);
        }
    }
    assert forall|e: int, reply: ReplyId|
        0 <= e < s.pool_size() && s.slots[d].held_by(reply) && s.slots[e].held_by(
            reply,
        ) implies e == d by {
        if e < d {
            assert(!(s.slots[e] matches DrawlistState::Bound { reply: holder, .. }
                && s.slots[d].held_by(holder)));
        }
        if d < e {
            assert(!(s.slots[d] matches DrawlistState::Bound { reply: holder, .. }
                && s.slots[e].held_by(holder)));
        }
    }
}

/// Pool conservation. In every valid state the drawlists in the idle pool,
/// those with workers and those queued for submission add up to the size of
/// the pool.
pub proof fn lemma_pool_conserved<S>(s: CoordinatorState<S>)
    requires
        s.inv(),
    ensures
        s.free.len() + s.in_flight() + s.pending() == s.pool_size(),
{
    lemma_count_partition(s.slots);
}

/// The size of the pool never changes, so the sum of the three counts is the
/// same after every event as it was at startup.
pub proof fn lemma_pool_size_constant<S>(s: CoordinatorState<S>, event: Event<S>)
    requires
        s.inv(),
    ensures
        s.next(event).0.pool_size() == s.pool_size(),
        s.next(event).0.free.len() + s.next(event).0.in_flight() + s.next(event).0.pending()
            == s.pool_size(),
{
    lemma_next_inv(s, event);
    lemma_pool_conserved(s.next(event).0);
}

/// A drawlist that has left the idle pool changes hands only by its own
/// events: a bound one stays with its worker until that worker gives it
/// back, a prepared one stays queued until its submission is reported.
pub proof fn lemma_drawlist_stays<S>(s: CoordinatorState<S>, event: Event<S>, d: int)
    requires
        s.inv(),
        0 <= d < s.pool_size(),
        !(s.slots[d] is Free),
        event != Event::<S>::Command(RenderCommand::Complete(d as DrawlistId)),
        !(event matches Event::Presented { drawlist, .. } && drawlist == d),
    ensures
        s.next(event).0.slots[d] == s.slots[d],
{
    let t = s.next(event).0;
    if t.slots != s.slots {
        match event {
            Event::Command(RenderCommand::Waiting(reply)) => {
                assert(s.slots[s.free.last() as int] is Free);
            },
            Event::Idle => {
                assert(s.slots[s.free.last() as int] is Free);
            },
            Event::Command(RenderCommand::Complete(drawlist)) => {
                assert(drawlist != d);
            },
            Event::Presented { drawlist, now } => {
                assert(drawlist != d);
            },
            _ => {},
        }
    }
}

/// No lost work. A drawlist that is with a worker comes back to the idle
/// pool once the worker gives it back: during shutdown at once, otherwise
/// by way of its submission.
pub proof fn lemma_drawlist_returns<S>(s: CoordinatorState<S>, drawlist: DrawlistId, now: u64)
    requires
        s.inv(),
        drawlist < s.pool_size(),
        s.slots[drawlist as int] is Bound,
        !(s.phase is Terminated),
    ensures
        ({
            let (t, given_back) = s.next(Event::Command(RenderCommand::Complete(drawlist)));
            let (u, shown) = t.next(Event::Presented { drawlist, now });
            if s.phase is Draining {
                &&& given_back == Ok::<ActionView, ProtocolViolation>(ActionView::Nothing)
                &&& t.owned_by(drawlist as int, Owner::Pool)
            } else {
                &&& given_back == Ok::<ActionView, ProtocolViolation>(
                    ActionView::Submit { drawlist, camera: s.camera },
                )
                &&& t.owned_by(drawlist as int, Owner::Submission)
                &&& shown is Ok
                &&& u.owned_by(drawlist as int, Owner::Pool)
            }
        }),
{
    let (t, given_back) = s.next(Event::Command(RenderCommand::Complete(drawlist)));
    let (u, shown) = t.next(Event::Presented { drawlist, now });
    if s.phase is Draining {
        assert(t.free[s.free.len() as int] == drawlist);
    } else {
        assert(u.free[t.free.len() as int] == drawlist);
    }
}

/// When a shutdown is acknowledged no drawlist is with a worker: all of them
/// are in the idle pool or about to be submitted by the coordinator itself.
pub proof fn lemma_nothing_in_flight_at_acknowledgement<S>(
    s: CoordinatorState<S>,
    event: Event<S>,
)
    requires
        s.inv(),
        acknowledges(s.next(event).1),
    ensures
        s.next(event).0.in_flight() == 0,
        forall|d: int| 0 <= d < s.pool_size() ==> !(#[trigger] s.next(event).0.slots[d] is Bound),
{
    let t = s.next(event).0;
    lemma_next_inv(s, event);
    assert(t.workers == 0);
    lemma_count_zero(t.slots, Stage::Bound);
}

/// Shutdown termination, step by step. The number of live workers never
/// grows. A shutdown is acknowledged only by the step that brings that
/// number to zero, and that step ends the loop.
pub proof fn lemma_workers_never_grow<S>(s: CoordinatorState<S>, event: Event<S>)
    requires
        s.inv(),
    ensures
        s.next(event).0.workers <= s.workers,
        acknowledges(s.next(event).1) ==> !(s.phase is Terminated) && s.next(event).0.phase
            is Terminated && s.next(event).0.workers == 0,
        s.phase is Terminated ==> s.next(event) == (
            s,
            Ok::<ActionView, ProtocolViolation>(ActionView::Nothing),
        ),
        s.phase is Draining ==> s.next(event).0.phase == s.phase || s.next(event).0.phase
            is Terminated,
{
}

/// During shutdown every worker that announces itself, and is entitled to,
/// is told to stop and counted off. The last one has the shutdown
/// acknowledged on the channel that the request named.
pub proof fn lemma_dismissal_counts_down<S>(s: CoordinatorState<S>, reply: ReplyId)
    requires
        s.inv(),
        s.phase is Draining,
        s.announce_violation(reply) is None,
    ensures
        ({
            let (t, outcome) = s.next(Event::Command(RenderCommand::Waiting(reply)));
            &&& t.workers == s.workers - 1
            &&& t.workers > 0 ==> t.phase == s.phase && outcome == Ok::<
                ActionView,
                ProtocolViolation,
            >(ActionView::Terminate { replies: seq![reply] })
            &&& t.workers == 0 ==> t.phase is Terminated && outcome == Ok::<
                ActionView,
                ProtocolViolation,
            >(ActionView::Shutdown { replies: seq![reply], ack: Some(s.phase->ack) })
        }),
{
}

/// The announcements of the workers `replies`, one after the other.
pub open spec fn announcements<S>(replies: Seq<ReplyId>) -> Seq<Event<S>> {
    Seq::new(replies.len(), |i: int| Event::Command(RenderCommand::Waiting(replies[i])))
}

proof fn lemma_dismissals<S>(s: CoordinatorState<S>, replies: Seq<ReplyId>, k: int)
    requires
        s.inv(),
        s.phase is Draining,
        s.in_flight() == 0,
        0 <= k <= replies.len() <= s.workers,
    ensures
        ({
            let events = announcements::<S>(replies).take(k);
            let t = s.run(events);
            &&& t.workers == s.workers - k
            &&& t.slots == s.slots
            &&& t.waiting == s.waiting
            &&& t.inv()
            &&& if k == s.workers {
                t.phase is Terminated && s.acknowledgements(events) == 1
            } else {
                t.phase == s.phase && s.acknowledgements(events) == 0
            }
        }),
    decreases k,
{
    let events = announcements::<S>(replies).take(k);
    if k > 0 {
        lemma_dismissals(s, replies, k - 1);
        assert(events.drop_last() == announcements::<S>(replies).take(k - 1));
        assert(events.last() == Event::<S>::Command(RenderCommand::Waiting(replies[k - 1])));
        let u = s.run(events.drop_last());
        lemma_count_zero(u.slots, Stage::Bound);
        assert(!holds(u.slots, replies[k - 1]));
        lemma_next_inv(u, events.last());
    }
}

/// Shutdown termination, to the end. Once shutdown has begun and no drawlist
/// is with a worker, the announcements of as many workers as are left bring
/// their number to zero, one by one, and the last of them has the shutdown
/// acknowledged, once.
pub proof fn lemma_shutdown_completes<S>(s: CoordinatorState<S>, replies: Seq<ReplyId>)
    requires
        s.inv(),
        s.phase is Draining,
        s.in_flight() == 0,
        replies.len() == s.workers,
    ensures
        s.run(announcements(replies)).phase is Terminated,
        s.run(announcements(replies)).workers == 0,
        s.acknowledgements(announcements(replies)) == 1,
        forall|k: int|
            0 <= k <= replies.len() ==> (#[trigger] s.run(
                announcements(replies).take(k),
            )).workers == s.workers - k,
{
    let events = announcements::<S>(replies);
    assert(events.take(replies.len() as int) == events);
    lemma_dismissals(s, replies, replies.len() as int);
    assert forall|k: int| 0 <= k <= replies.len() implies (#[trigger] s.run(
        events.take(k),
    )).workers == s.workers - k by {
        lemma_dismissals(s, replies, k);
    }
}

/// Shutdown termination, over a whole run. However the events fall, a
/// shutdown is acknowledged at most once, and once it has been the loop has
/// ended with no worker left.
pub proof fn lemma_acknowledged_once<S>(s: CoordinatorState<S>, events: Seq<Event<S>>)
    requires
        s.inv(),
    ensures
        s.acknowledgements(events) <= 1,
        s.acknowledgements(events) == 1 ==> s.run(events).phase is Terminated && s.run(
            events,
        ).workers == 0,
    decreases events.len(),
{
    if events.len() > 0 {
        let before = s.run(events.drop_last());
        lemma_acknowledged_once(s, events.drop_last());
        lemma_run_inv(s, events.drop_last());
        lemma_workers_never_grow(before, events.last());
    }
}

/// Update atomicity, one step. While the loop runs an update replaces the
/// current snapshot, the scene and the camera together, keeps the replaced
/// snapshot as the last one, and hands out no drawlist. Once shutdown has
/// begun an update is dropped.
pub proof fn lemma_update_is_atomic<S>(
    s: CoordinatorState<S>,
    db: S,
    scene: ObjectKey,
    camera: ObjectKey,
)
    requires
        s.inv(),
    ensures
        ({
            let (t, outcome) = s.next(Event::Command(RenderCommand::Update(db, scene, camera)));
            if s.phase is AwaitingResourceSetup || s.phase is Running {
                &&& t.db.current == db
                &&& t.db.last == s.db.current
                &&& t.scene == scene
                &&& t.camera == camera
                &&& t.slots == s.slots
                &&& t.free == s.free
                &&& t.waiting == s.waiting
                &&& outcome == Ok::<ActionView, ProtocolViolation>(ActionView::Reload)
            } else {
                &&& t == s
                &&& outcome == Ok::<ActionView, ProtocolViolation>(ActionView::Nothing)
            }
        }),
{
}

/// No event but an update touches the snapshots, the scene or the camera.
pub proof fn lemma_only_update_rebinds<S>(s: CoordinatorState<S>, event: Event<S>)
    requires
        s.inv(),
        !(event matches Event::Command(RenderCommand::Update(..))),
    ensures
        s.next(event).0.db == s.db,
        s.next(event).0.scene == s.scene,
        s.next(event).0.camera == s.camera,
{
}

/// Every drawlist that is handed out is bound to the scene and the camera of
/// the state in which it is handed out, never to the absence of a scene,
/// while the current snapshot stays the one that came with them.
pub proof fn lemma_dispatch_binds_current<S>(s: CoordinatorState<S>, event: Event<S>)
    requires
        s.inv(),
    ensures
        s.next(event).1 matches Ok(ActionView::Dispatch { reply, drawlist, scene, camera }) ==> {
            let t = s.next(event).0;
            &&& scene == s.scene
            &&& camera == s.camera
            &&& scene != NO_OBJECT
            &&& t.db.current == s.db.current
            &&& drawlist < s.pool_size()
            &&& s.slots[drawlist as int] is Free
            &&& t.slots[drawlist as int] == DrawlistState::Bound { reply, scene, camera }
        },
{
    if s.next(event).1 matches Ok(ActionView::Dispatch { reply, drawlist, scene, camera }) {
        assert(s.free.len() > 0);
        assert(s.slots[s.free[s.free.len() - 1] as int] is Free);
    }
}

/// No update is among `events`.
pub open spec fn no_update<S>(events: Seq<Event<S>>) -> bool {
    forall|i: int|
        0 <= i < events.len() ==> !(#[trigger] events[i] matches Event::Command(
            RenderCommand::Update(..),
        ))
}

/// Update atomicity, over a whole run. After an update, and until the next
/// one, every drawlist that is handed out is bound to the scene and the
/// camera of that update, and the current snapshot is the one that came
/// with them: no drawlist is bound to ids of one update and the snapshot of
/// another.
pub proof fn lemma_bindings_follow_update<S>(
    s: CoordinatorState<S>,
    db: S,
    scene: ObjectKey,
    camera: ObjectKey,
    events: Seq<Event<S>>,
)
    requires
        s.inv(),
        s.phase is AwaitingResourceSetup || s.phase is Running,
        no_update(events),
    ensures
        ({
            let updated = s.next(Event::Command(RenderCommand::Update(db, scene, camera))).0;
            let t = updated.run(events);
            &&& t.db.current == db
            &&& t.db.last == s.db.current
            &&& t.scene == scene
            &&& t.camera == camera
            &&& events.len() > 0 ==> (updated.last_outcome(events) matches Ok(
                ActionView::Dispatch { scene: bound_scene, camera: bound_camera, .. },
            ) ==> bound_scene == scene && bound_camera == camera)
        }),
    decreases events.len(),
{
    let updated = s.next(Event::Command(RenderCommand::Update(db, scene, camera))).0;
    lemma_next_inv(s, Event::Command(RenderCommand::Update(db, scene, camera)));
    if events.len() > 0 {
        let earlier = events.drop_last();
        assert(no_update(earlier)) by {
            assert forall|i: int| 0 <= i < earlier.len() implies !(#[trigger] earlier[i] matches
            Event::Command(RenderCommand::Update(..))) by {
                assert(earlier[i] == events[i]);
            }
        }
        lemma_bindings_follow_update(s, db, scene, camera, earlier);
        lemma_run_inv(updated, earlier);
        assert(!(events[events.len() - 1] matches Event::Command(RenderCommand::Update(..))));
        lemma_only_update_rebinds(updated.run(earlier), events.last());
        lemma_dispatch_binds_current(updated.run(earlier), events.last());
    }
}

/// The compute resource changes hands once. However the events fall, it is
/// handed over at most once, to the first who asks while the loop runs, and
/// only if there was one to begin with. Every other request is answered
/// with nothing.
pub proof fn lemma_resource_handed_over_once<S>(s: CoordinatorState<S>, events: Seq<Event<S>>)
    ensures
        s.handovers(events) <= 1,
        s.handovers(events) == 1 ==> s.resource && !s.run(events).resource,
        s.run(events).resource ==> s.resource,
    decreases events.len(),
{
    if events.len() > 0 {
        lemma_resource_handed_over_once(s, events.drop_last());
    }
}

/// The poll is never wasted: whenever the loop is told not to block, an
/// empty poll hands a drawlist to the worker queued last.
pub proof fn lemma_poll_makes_progress<S>(s: CoordinatorState<S>)
    requires
        s.inv(),
        s.phase is AwaitingResourceSetup || s.phase is Running,
        !s.must_block(),
    ensures
        s.next(Event::Idle).1 == Ok::<ActionView, ProtocolViolation>(
            ActionView::Dispatch {
                reply: s.waiting.last(),
                drawlist: s.free.last(),
                scene: s.scene,
                camera: s.camera,
            },
        ),
{
}

} // verus!

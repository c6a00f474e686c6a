//! The coordinator as a mathematical state machine: its state, the events it
//! reacts to, and for each state and event the next state and the action
//! owed to the outside.

use crate::command::{DrawlistId, ObjectKey, RenderCommand, ReplyId, NO_OBJECT};
use crate::db::GraphicsState;
use crate::drawlist::{count, holds, DrawlistState, Stage};
use vstd::prelude::*;

verus! {

/// The phases of the coordinator's life.
#[derive(Clone, Copy, Debug, PartialEq, Eq, Structural)]
pub enum Phase {
    /// Nobody has asked for the compute resource yet. Every message is
    /// served as in `Running`.
    AwaitingResourceSetup,
    /// The main loop.
    Running,
    /// Shutdown was requested and will be acknowledged on `ack` once every
    /// worker has been told to stop.
    Draining { ack: ReplyId },
    /// The loop has ended. No message is processed any more.
    Terminated,
}

/// A message that breaks the protocol. The state is left as it was.
#[derive(Clone, Copy, Debug, PartialEq, Eq, Structural)]
pub enum ProtocolViolation {
    /// A worker announced itself while it holds a drawlist that it has not
    /// given back.
    WorkerHoldsDrawlist,
    /// A worker announced itself a second time while still queued.
    WorkerAlreadyWaiting,
    /// A worker announced itself although every live worker is accounted
    /// for, queued or busy.
    UnexpectedWorker,
    /// A drawlist was given back that is not with a worker.
    DrawlistNotBound,
    /// A submission was reported for a drawlist that is not queued for one.
    DrawlistNotPrepared,
}

/// What the coordinator's loop hands to the state machine.
#[derive(Debug)]
pub enum Event<S> {
    /// A message arrived on the control channel.
    Command(RenderCommand<S>),
    /// A poll of the control channel found it empty.
    Idle,
    /// Every sender of the control channel is gone.
    Disconnected,
    /// The drawlist that was to be submitted has been rendered and
    /// presented; the clock read `now` nanoseconds afterwards.
    Presented { drawlist: DrawlistId, now: u64 },
}

/// What the coordinator's loop owes after a step, as a mathematical value.
pub enum ActionView {
    /// Nothing. A reply channel that came with the message and is not kept
    /// for a queued worker or a pending shutdown is dropped unanswered,
    /// which its owner takes for an empty reply.
    Nothing,
    /// Create the resources that the new current snapshot needs.
    Reload,
    /// Reply to a request for the compute resource: hand it over if
    /// `granted`, reply with nothing if not.
    Handoff { reply: ReplyId, granted: bool },
    /// Bind the drawlist to a clone of the current snapshot, to `scene` and
    /// to `camera`, and send it to the worker.
    Dispatch { reply: ReplyId, drawlist: DrawlistId, scene: ObjectKey, camera: ObjectKey },
    /// Finish the preparation of the drawlist, render it as seen from
    /// `camera` in the current snapshot, present the frame, and report
    /// `Event::Presented`.
    Submit { drawlist: DrawlistId, camera: ObjectKey },
    /// A frame was presented `elapsed` nanoseconds after the one before.
    Frame { elapsed: u64 },
    /// Send the termination signal to each of these workers, in this order.
    Terminate { replies: Seq<ReplyId> },
    /// Send the termination signal to each of these workers, acknowledge the
    /// shutdown on `ack` if there is one, and leave the loop.
    Shutdown { replies: Seq<ReplyId>, ack: Option<ReplyId> },
}

/// The result of a step: the action owed, or the violation found.
pub type Outcome = Result<ActionView, ProtocolViolation>;

/// Nanoseconds from `before` to `now`; zero if the clock went backwards.
pub open spec fn elapsed(before: u64, now: u64) -> u64 {
    if now >= before {
        (now - before) as u64
    } else {
        0
    }
}

/// The drawlist `d` is in the idle pool `free`.
pub open spec fn listed(free: Seq<DrawlistId>, d: int) -> bool {
    exists|i: int| 0 <= i < free.len() && #[trigger] free[i] == d
}

/// The idle pool `free` lists the free drawlists of `slots`: nothing else,
/// each once, and all of them.
pub open spec fn pool_lists_free(slots: Seq<DrawlistState>, free: Seq<DrawlistId>) -> bool {
    &&& forall|i: int|
        0 <= i < free.len() ==> (#[trigger] free[i]) < slots.len() && slots[free[i] as int] is Free
    &&& forall|i: int, j: int| 0 <= i < j < free.len() ==> #[trigger] free[i] != #[trigger] free[j]
    &&& forall|d: int| 0 <= d < slots.len() && (#[trigger] slots[d]) is Free ==> listed(free, d)
    &&& free.len() == count(slots, Stage::Free)
}

/// Every drawlist that has left the pool is bound to a scene, and no worker
/// has two of them.
pub open spec fn bindings_sound(slots: Seq<DrawlistState>) -> bool {
    &&& forall|d: int| 0 <= d < slots.len() ==> (#[trigger] slots[d]).has_scene()
    &&& forall|d: int, e: int|
        0 <= d < e < slots.len() ==> !((#[trigger] slots[d]) matches DrawlistState::Bound {
            reply,
            ..
        } && (#[trigger] slots[e]).held_by(reply))
}

/// A worker is queued at most once and has no drawlist while it is queued.
pub open spec fn queue_sound(slots: Seq<DrawlistState>, waiting: Seq<ReplyId>) -> bool {
    &&& forall|i: int, j: int|
        0 <= i < j < waiting.len() ==> #[trigger] waiting[i] != #[trigger] waiting[j]
    &&& forall|i: int| 0 <= i < waiting.len() ==> !holds(slots, #[trigger] waiting[i])
}

/// Who has a drawlist.
pub enum Owner {
    /// The coordinator's idle pool.
    Pool,
    /// The worker that announced itself under this name.
    Worker(ReplyId),
    /// The coordinator, which is about to submit it.
    Submission,
}

/// The outcome acknowledges a shutdown.
pub open spec fn acknowledges(outcome: Outcome) -> bool {
    outcome matches Ok(ActionView::Shutdown { ack: Some(_), .. })
}

/// The outcome hands the compute resource over.
pub open spec fn grants(outcome: Outcome) -> bool {
    outcome matches Ok(ActionView::Handoff { granted: true, .. })
}

/// The state of the coordinator.
pub struct CoordinatorState<S> {
    pub phase: Phase,
    /// The state of each drawlist of the pool, by its index.
    pub slots: Seq<DrawlistState>,
    /// The idle pool, a stack: the last one is handed out first.
    pub free: Seq<DrawlistId>,
    /// The workers that asked for a drawlist and got none yet, a stack.
    pub waiting: Seq<ReplyId>,
    /// The number of workers that have not been told to stop.
    pub workers: nat,
    /// The scene to draw; `NO_OBJECT` until the first update.
    pub scene: ObjectKey,
    /// The camera to draw from.
    pub camera: ObjectKey,
    /// The scene database.
    pub db: GraphicsState<S>,
    /// Whether the compute resource is still here to be handed over.
    pub resource: bool,
    /// The clock when the last frame was presented.
    pub time: u64,
}

impl<S> CoordinatorState<S> {
    /// The state at startup: every drawlist free, no scene, no worker heard
    /// of yet.
    pub open spec fn init(
        db: GraphicsState<S>,
        pool_size: nat,
        workers: nat,
        resource: bool,
        now: u64,
    ) -> CoordinatorState<S> {
        CoordinatorState {
            phase: Phase::AwaitingResourceSetup,
            slots: Seq::new(pool_size, |d: int| DrawlistState::Free),
            free: Seq::new(pool_size, |d: int| d as DrawlistId),
            waiting: Seq::empty(),
            workers,
            scene: NO_OBJECT,
            camera: NO_OBJECT,
            db,
            resource,
            time: now,
        }
    }

    /// The number of drawlists, fixed at startup.
    pub open spec fn pool_size(self) -> nat {
        self.slots.len()
    }

    /// Drawlists that are with a worker.
    pub open spec fn in_flight(self) -> nat {
        count(self.slots, Stage::Bound)
    }

    /// Drawlists that are queued for submission.
    pub open spec fn pending(self) -> nat {
        count(self.slots, Stage::Prepared)
    }

    /// A scene is bound and a drawlist is free: a worker that asks can be
    /// served.
    pub open spec fn can_pair(self) -> bool {
        self.scene != NO_OBJECT && self.free.len() > 0
    }

    /// No progress is possible without a new message: the loop waits for one
    /// instead of polling.
    pub open spec fn must_block(self) -> bool {
        self.free.len() == 0 || self.waiting.len() == 0 || self.scene == NO_OBJECT
    }

    /// What is wrong with an announcement of the worker `reply`, if anything.
    pub open spec fn announce_violation(self, reply: ReplyId) -> Option<ProtocolViolation> {
        if holds(self.slots, reply) {
            Some(ProtocolViolation::WorkerHoldsDrawlist)
        } else if self.waiting.contains(reply) {
            Some(ProtocolViolation::WorkerAlreadyWaiting)
        } else if self.waiting.len() + self.in_flight() >= self.workers {
            Some(ProtocolViolation::UnexpectedWorker)
        } else {
            None
        }
    }

    /// The free drawlist on top of the pool goes to the worker `reply`, bound
    /// to the scene and the camera of the moment.
    pub open spec fn pair(self, reply: ReplyId) -> (CoordinatorState<S>, Outcome)
        recommends
            self.free.len() > 0,
    {
        let drawlist = self.free.last();
        (
            CoordinatorState {
                slots: self.slots.update(
                    drawlist as int,
                    DrawlistState::Bound { reply, scene: self.scene, camera: self.camera },
                ),
                free: self.free.drop_last(),
                ..self
            },
            Ok(
                ActionView::Dispatch {
                    reply,
                    drawlist,
                    scene: self.scene,
                    camera: self.camera,
                },
            ),
        )
    }

    /// A worker announces itself while the loop runs: it is served at once
    /// if that is possible and queued if not.
    pub open spec fn announce(self, reply: ReplyId) -> (CoordinatorState<S>, Outcome) {
        match self.announce_violation(reply) {
            Some(violation) => (self, Err(violation)),
            None => if self.can_pair() {
                self.pair(reply)
            } else {
                (
                    CoordinatorState { waiting: self.waiting.push(reply), ..self },
                    Ok(ActionView::Nothing),
                )
            },
        }
    }

    /// The channel was polled and found empty: the worker queued last is
    /// served if that is possible.
    pub open spec fn poll_empty(self) -> (CoordinatorState<S>, Outcome) {
        if self.can_pair() && self.waiting.len() > 0 {
            (CoordinatorState { waiting: self.waiting.drop_last(), ..self }).pair(
                self.waiting.last(),
            )
        } else {
            (self, Ok(ActionView::Nothing))
        }
    }

    /// A new snapshot replaces the current one, together with the scene and
    /// the camera that later bindings use.
    pub open spec fn update(self, db: S, scene: ObjectKey, camera: ObjectKey) -> (
        CoordinatorState<S>,
        Outcome,
    ) {
        (
            CoordinatorState { db: self.db.update(db), scene, camera, ..self },
            Ok(ActionView::Reload),
        )
    }

    /// The compute resource is asked for: the first request gets it, if
    /// there is one, and every later request gets nothing.
    pub open spec fn handoff(self, reply: ReplyId) -> (CoordinatorState<S>, Outcome) {
        (
            CoordinatorState { phase: Phase::Running, resource: false, ..self },
            Ok(ActionView::Handoff { reply, granted: self.resource }),
        )
    }

    /// A worker gives a drawlist back. While the loop runs the drawlist is
    /// queued for submission; during shutdown it goes straight back to the
    /// pool.
    pub open spec fn complete(self, drawlist: DrawlistId) -> (CoordinatorState<S>, Outcome) {
        if drawlist < self.slots.len() {
            match self.slots[drawlist as int] {
                DrawlistState::Bound { reply, scene, camera } => {
                    if self.phase is Draining {
                        (
                            CoordinatorState {
                                slots: self.slots.update(drawlist as int, DrawlistState::Free),
                                free: self.free.push(drawlist),
                                ..self
                            },
                            Ok(ActionView::Nothing),
                        )
                    } else {
                        (
                            CoordinatorState {
                                slots: self.slots.update(
                                    drawlist as int,
                                    DrawlistState::Prepared { scene, camera },
                                ),
                                ..self
                            },
                            Ok(ActionView::Submit { drawlist, camera: self.camera }),
                        )
                    }
                },
                _ => (self, Err(ProtocolViolation::DrawlistNotBound)),
            }
        } else {
            (self, Err(ProtocolViolation::DrawlistNotBound))
        }
    }

    /// A drawlist has been submitted and its frame presented: it is free
    /// again, and the time since the last frame is reported.
    pub open spec fn presented(self, drawlist: DrawlistId, now: u64) -> (
        CoordinatorState<S>,
        Outcome,
    ) {
        if drawlist < self.slots.len() && self.slots[drawlist as int] is Prepared {
            (
                CoordinatorState {
                    slots: self.slots.update(drawlist as int, DrawlistState::Free),
                    free: self.free.push(drawlist),
                    time: now,
                    ..self
                },
                Ok(ActionView::Frame { elapsed: elapsed(self.time, now) }),
            )
        } else {
            (self, Err(ProtocolViolation::DrawlistNotPrepared))
        }
    }

    /// Shutdown is requested: every queued worker is told to stop, the one
    /// queued last first. If no worker is left the shutdown is acknowledged
    /// at once; if not, the coordinator waits for the others to announce
    /// themselves.
    pub open spec fn shutdown(self, ack: ReplyId) -> (CoordinatorState<S>, Outcome) {
        let replies = self.waiting.reverse();
        let workers = (self.workers - self.waiting.len()) as nat;
        if workers == 0 {
            (
                CoordinatorState {
                    phase: Phase::Terminated,
                    waiting: Seq::empty(),
                    workers,
                    ..self
                },
                Ok(ActionView::Shutdown { replies, ack: Some(ack) }),
            )
        } else {
            (
                CoordinatorState {
                    phase: Phase::Draining { ack },
                    waiting: Seq::empty(),
                    workers,
                    ..self
                },
                Ok(ActionView::Terminate { replies }),
            )
        }
    }

    /// A worker announces itself during shutdown: it is told to stop. The
    /// last one to be told so ends the shutdown, which is acknowledged on
    /// `ack`.
    pub open spec fn dismiss(self, reply: ReplyId, ack: ReplyId) -> (
        CoordinatorState<S>,
        Outcome,
    ) {
        match self.announce_violation(reply) {
            Some(violation) => (self, Err(violation)),
            None => {
                let workers = (self.workers - 1) as nat;
                if workers == 0 {
                    (
                        CoordinatorState { phase: Phase::Terminated, workers, ..self },
                        Ok(ActionView::Shutdown { replies: seq![reply], ack: Some(ack) }),
                    )
                } else {
                    (
                        CoordinatorState { workers, ..self },
                        Ok(ActionView::Terminate { replies: seq![reply] }),
                    )
                }
            },
        }
    }

    /// The control channel is gone: the queued workers are told to stop and
    /// the loop ends, with nobody to acknowledge to.
    pub open spec fn disconnect(self) -> (CoordinatorState<S>, Outcome) {
        (
            CoordinatorState {
                phase: Phase::Terminated,
                waiting: Seq::empty(),
                workers: (self.workers - self.waiting.len()) as nat,
                ..self
            },
            Ok(ActionView::Shutdown { replies: self.waiting.reverse(), ack: None }),
        )
    }

    /// The next state and the action owed, for every state and event.
    pub open spec fn next(self, event: Event<S>) -> (CoordinatorState<S>, Outcome) {
        match self.phase {
            Phase::Terminated => (self, Ok(ActionView::Nothing)),
            Phase::Draining { ack } => match event {
                Event::Command(RenderCommand::Waiting(reply)) => self.dismiss(reply, ack),
                Event::Command(RenderCommand::Complete(drawlist)) => self.complete(drawlist),
                Event::Presented { drawlist, now } => self.presented(drawlist, now),
                Event::Disconnected => self.disconnect(),
                _ => (self, Ok(ActionView::Nothing)),
            },
            _ => match event {
                Event::Command(RenderCommand::Update(db, scene, camera)) => self.update(
                    db,
                    scene,
                    camera,
                ),
                Event::Command(RenderCommand::Waiting(reply)) => self.announce(reply),
                Event::Command(RenderCommand::Complete(drawlist)) => self.complete(drawlist),
                Event::Command(RenderCommand::Setup(reply)) => self.handoff(reply),
                Event::Command(RenderCommand::Finish(ack)) => self.shutdown(ack),
                Event::Idle => self.poll_empty(),
                Event::Disconnected => self.disconnect(),
                Event::Presented { drawlist, now } => self.presented(drawlist, now),
            },
        }
    }

    /// The state after the events of `events`, taken in order. An event
    /// that violates the protocol leaves the state as it was.
    pub open spec fn run(self, events: Seq<Event<S>>) -> CoordinatorState<S>
        decreases events.len(),
    {
        if events.len() == 0 {
            self
        } else {
            self.run(events.drop_last()).next(events.last()).0
        }
    }

    /// What the step for the last of `events` returns, after those before
    /// it.
    pub open spec fn last_outcome(self, events: Seq<Event<S>>) -> Outcome
        recommends
            events.len() > 0,
    {
        self.run(events.drop_last()).next(events.last()).1
    }

    /// How often a shutdown is acknowledged in the course of `events`.
    pub open spec fn acknowledgements(self, events: Seq<Event<S>>) -> nat
        decreases events.len(),
    {
        if events.len() == 0 {
            0
        } else {
            self.acknowledgements(events.drop_last()) + if acknowledges(
                self.last_outcome(events),
            ) {
                1nat
            } else {
                0nat
            }
        }
    }

    /// How often the compute resource is handed over in the course of
    /// `events`.
    pub open spec fn handovers(self, events: Seq<Event<S>>) -> nat
        decreases events.len(),
    {
        if events.len() == 0 {
            0
        } else {
            self.handovers(events.drop_last()) + if grants(self.last_outcome(events)) {
                1nat
            } else {
                0nat
            }
        }
    }

    /// Whether `owner` has the drawlist `d`.
    pub open spec fn owned_by(self, d: int, owner: Owner) -> bool {
        match owner {
            Owner::Pool => listed(self.free, d),
            Owner::Worker(reply) => self.slots[d].held_by(reply),
            Owner::Submission => self.slots[d] is Prepared,
        }
    }

    /// What holds of every state that the coordinator can reach.
    pub open spec fn inv(self) -> bool {
        &&& pool_lists_free(self.slots, self.free)
        &&& bindings_sound(self.slots)
        &&& queue_sound(self.slots, self.waiting)
        // Queued and busy workers are live workers.
        &&& self.waiting.len() + self.in_flight() <= self.workers
        // During shutdown nobody is queued and somebody is still to be told.
        &&& self.phase is Draining ==> self.waiting.len() == 0 && self.workers > 0
    }
}

} // verus!

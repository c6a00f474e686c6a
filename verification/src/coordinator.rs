//! The render coordinator: the state machine of `model`, executable.
//!
//! The thread that owns the graphics context keeps one `Coordinator`, feeds
//! it what it receives, and performs the action that each step returns.

use crate::clock::precise_time_ns;
use crate::command::{DrawlistId, ObjectKey, RenderCommand, ReplyId, NO_OBJECT};
use crate::db::{Graphics, LoadPlan, ShaderSet};
use crate::drawlist::{count, holds, DrawlistState, Stage};
use crate::model::{
    elapsed, ActionView, CoordinatorState, Event, Outcome, Phase, ProtocolViolation,
};
use crate::validity::{lemma_init_inv, lemma_next_inv};
use vstd::prelude::*;

verus! {

/// What the coordinator's loop owes after a step.
#[derive(Debug, PartialEq, Eq)]
pub enum Action<S> {
    /// Nothing. A reply channel that came with the message and is not kept
    /// for a queued worker or a pending shutdown is dropped unanswered,
    /// which its owner takes for an empty reply.
    Nothing,
    /// Create the resources that the new current snapshot needs.
    Reload,
    /// Reply to a request for the compute resource: hand it over if
    /// `granted`, reply with nothing if not.
    Handoff { reply: ReplyId, granted: bool },
    /// Bind the drawlist to `snapshot`, a clone of the current snapshot, to
    /// `scene` and to `camera`, and send it to the worker.
    Dispatch {
        reply: ReplyId,
        drawlist: DrawlistId,
        scene: ObjectKey,
        camera: ObjectKey,
        snapshot: S,
    },
    /// Finish the preparation of the drawlist, render it as seen from
    /// `camera` in the current snapshot, present the frame, and report
    /// `Event::Presented`.
    Submit { drawlist: DrawlistId, camera: ObjectKey },
    /// A frame was presented `elapsed` nanoseconds after the one before.
    Frame { elapsed: u64 },
    /// Send the termination signal to each of these workers, in this order.
    Terminate { replies: Vec<ReplyId> },
    /// Send the termination signal to each of these workers, acknowledge the
    /// shutdown on `ack` if there is one, and leave the loop.
    Shutdown { replies: Vec<ReplyId>, ack: Option<ReplyId> },
}

impl<S> View for Action<S> {
    type V = ActionView;

    /// The action without the snapshot that a `Dispatch` carries.
    open spec fn view(&self) -> ActionView {
        match *self {
            Action::Nothing => ActionView::Nothing,
            Action::Reload => ActionView::Reload,
            Action::Handoff { reply, granted } => ActionView::Handoff { reply, granted },
            Action::Dispatch { reply, drawlist, scene, camera, .. } => ActionView::Dispatch {
                reply,
                drawlist,
                scene,
                camera,
            },
            Action::Submit { drawlist, camera } => ActionView::Submit { drawlist, camera },
            Action::Frame { elapsed } => ActionView::Frame { elapsed },
            Action::Terminate { replies } => ActionView::Terminate { replies: replies@ },
            Action::Shutdown { replies, ack } => ActionView::Shutdown { replies: replies@, ack },
        }
    }
}

/// What a step returns: the action owed, or the violation found.
pub type StepResult<S> = Result<Action<S>, ProtocolViolation>;

/// The snapshot that goes out with a drawlist is a clone of `current`.
pub open spec fn carries_clone_of<S: Clone>(
    result: StepResult<S>,
    current: S,
) -> bool {
    result matches Ok(Action::Dispatch { snapshot, .. }) ==> cloned(current, snapshot)
}

/// The result of a step as a mathematical value.
pub open spec fn outcome<S>(result: StepResult<S>) -> Outcome {
    match result {
        Ok(action) => Ok(action@),
        Err(violation) => Err(violation),
    }
}

/// The render coordinator.
pub struct Coordinator<S> {
    phase: Phase,
    slots: Vec<DrawlistState>,
    free: Vec<DrawlistId>,
    waiting: Vec<ReplyId>,
    workers: usize,
    scene: ObjectKey,
    camera: ObjectKey,
    db: Graphics<S>,
    resource: bool,
    time: u64,
}

impl<S> View for Coordinator<S> {
    type V = CoordinatorState<S>;

    closed spec fn view(&self) -> CoordinatorState<S> {
        CoordinatorState {
            phase: self.phase,
            slots: self.slots@,
            free: self.free@,
            waiting: self.waiting@,
            workers: self.workers as nat,
            scene: self.scene,
            camera: self.camera,
            db: self.db@,
            resource: self.resource,
            time: self.time,
        }
    }
}

impl<S: Clone> Coordinator<S> {
    /// The coordinator is in a state that the state machine can reach.
    pub open spec fn wf(&self) -> bool {
        self@.inv()
    }

    /// A coordinator for a pool of `pool_size` drawlists and `workers`
    /// workers, holding `db` as its first snapshot. `resource` says whether
    /// there is a compute resource to hand over; `now` is the clock.
    pub fn new(db: S, pool_size: usize, workers: usize, resource: bool, now: u64) -> (c: Self)
        ensures
            c.wf(),
            c@ == CoordinatorState::init(c@.db, pool_size as nat, workers as nat, resource, now),
            c@.db.last == db,
            cloned(db, c@.db.current),
            c@.db.vertex == Set::<ObjectKey>::empty(),
            c@.db.shaders == ShaderSet::none(),
    {
        let mut slots: Vec<DrawlistState> = Vec::new();
        let mut free: Vec<DrawlistId> = Vec::new();
        let mut d: usize = 0;
        while d < pool_size
            invariant
                d <= pool_size,
                slots@ == Seq::new(d as nat, |i: int| DrawlistState::Free),
                free@ == Seq::new(d as nat, |i: int| i as DrawlistId),
            decreases pool_size - d,
        {
            slots.push(DrawlistState::Free);
            free.push(d);
            d += 1;
        }
        let c = Coordinator {
            phase: Phase::AwaitingResourceSetup,
            slots,
            free,
            waiting: Vec::new(),
            workers,
            scene: NO_OBJECT,
            camera: NO_OBJECT,
            db: Graphics::new(db),
            resource,
            time: now,
        };
        proof {
            lemma_init_inv(c@.db, pool_size as nat, workers as nat, resource, now);
        }
        c
    }

    /// A coordinator as `new` makes it, timing its first frame from the
    /// clock's present reading.
    pub fn start(db: S, pool_size: usize, workers: usize, resource: bool) -> (c: Self)
        ensures
            c.wf(),
            exists|now: u64|
                c@ == CoordinatorState::init(
                    c@.db,
                    pool_size as nat,
                    workers as nat,
                    resource,
                    now,
                ),
            c@.db.last == db,
            cloned(db, c@.db.current),
            c@.db.vertex == Set::<ObjectKey>::empty(),
            c@.db.shaders == ShaderSet::none(),
    {
        let now = precise_time_ns();
        Coordinator::new(db, pool_size, workers, resource, now)
    }

    pub fn phase(&self) -> (phase: Phase)
        ensures
            phase == self@.phase,
    {
        self.phase
    }

    /// Whether the loop has ended.
    pub fn is_terminated(&self) -> (r: bool)
        ensures
            r == (self@.phase is Terminated),
    {
        match self.phase {
            Phase::Terminated => true,
            _ => false,
        }
    }

    /// Whether the loop should wait for the next message instead of polling:
    /// without a free drawlist, a queued worker and a scene there is nothing
    /// to do in between.
    pub fn must_block(&self) -> (r: bool)
        ensures
            r == self@.must_block(),
    {
        self.free.len() == 0 || self.waiting.len() == 0 || self.scene == NO_OBJECT
    }

    pub fn pool_size(&self) -> (n: usize)
        ensures
            n == self@.pool_size(),
    {
        self.slots.len()
    }

    /// The number of drawlists in the idle pool.
    pub fn free_count(&self) -> (n: usize)
        ensures
            n == self@.free.len(),
    {
        self.free.len()
    }

    /// The number of queued workers.
    pub fn waiting_count(&self) -> (n: usize)
        ensures
            n == self@.waiting.len(),
    {
        self.waiting.len()
    }

    /// The number of workers that have not been told to stop.
    pub fn workers(&self) -> (n: usize)
        ensures
            n == self@.workers,
    {
        self.workers
    }

    pub fn scene(&self) -> (scene: ObjectKey)
        ensures
            scene == self@.scene,
    {
        self.scene
    }

    pub fn camera(&self) -> (camera: ObjectKey)
        ensures
            camera == self@.camera,
    {
        self.camera
    }

    /// The scene database.
    pub fn db(&self) -> (db: &Graphics<S>)
        ensures
            db@ == self@.db,
    {
        &self.db
    }

    /// The state of the drawlist `drawlist`, if the pool has one of that
    /// name.
    pub fn drawlist(&self, drawlist: DrawlistId) -> (state: Option<DrawlistState>)
        ensures
            state == if drawlist < self@.slots.len() {
                Some(self@.slots[drawlist as int])
            } else {
                None
            },
    {
        if drawlist < self.slots.len() {
            Some(self.slots[drawlist])
        } else {
            None
        }
    }

    fn count_stage(&self, stage: Stage) -> (n: usize)
        ensures
            n == count(self@.slots, stage),
    {
        let mut n: usize = 0;
        let mut d: usize = 0;
        while d < self.slots.len()
            invariant
                d <= self.slots.len(),
                n <= d,
                n == count(self.slots@.take(d as int), stage),
            decreases self.slots.len() - d,
        {
            proof {
                assert(self.slots@.take(d + 1).drop_last() == self.slots@.take(d as int));
            }
            if self.slots[d].get_stage() == stage {
                n += 1;
            }
            d += 1;
        }
        proof {
            assert(self.slots@.take(self.slots.len() as int) == self.slots@);
        }
        n
    }

    /// The number of drawlists that are with a worker.
    pub fn in_flight(&self) -> (n: usize)
        ensures
            n == self@.in_flight(),
    {
        self.count_stage(Stage::Bound)
    }

    /// The number of drawlists that are queued for submission.
    pub fn pending(&self) -> (n: usize)
        ensures
            n == self@.pending(),
    {
        self.count_stage(Stage::Prepared)
    }

    fn holds(&self, reply: ReplyId) -> (r: bool)
        ensures
            r == holds(self@.slots, reply),
    {
        let mut d: usize = 0;
        while d < self.slots.len()
            invariant
                d <= self.slots.len(),
                forall|e: int| 0 <= e < d ==> !(#[trigger] self.slots@[e]).held_by(reply),
            decreases self.slots.len() - d,
        {
            match self.slots[d] {
                DrawlistState::Bound { reply: holder, .. } => {
                    if holder == reply {
                        assert(self.slots@[d as int].held_by(reply));
                        return true;
                    }
                },
                _ => {},
            }
            d += 1;
        }
        false
    }

    fn is_waiting(&self, reply: ReplyId) -> (r: bool)
        ensures
            r == self@.waiting.contains(reply),
    {
        let mut i: usize = 0;
        while i < self.waiting.len()
            invariant
                i <= self.waiting.len(),
                forall|j: int| 0 <= j < i ==> self.waiting@[j] != reply,
            decreases self.waiting.len() - i,
        {
            if self.waiting[i] == reply {
                return true;
            }
            i += 1;
        }
        false
    }

    fn announce_violation(&self, reply: ReplyId) -> (violation: Option<ProtocolViolation>)
        requires
            self.wf(),
        ensures
            violation == self@.announce_violation(reply),
    {
        if self.holds(reply) {
            Some(ProtocolViolation::WorkerHoldsDrawlist)
        } else if self.is_waiting(reply) {
            Some(ProtocolViolation::WorkerAlreadyWaiting)
        } else if self.waiting.len() + self.in_flight() >= self.workers {
            Some(ProtocolViolation::UnexpectedWorker)
        } else {
            None
        }
    }

    fn pair(&mut self, reply: ReplyId) -> (action: Action<S>)
        requires
            old(self).wf(),
            old(self)@.free.len() > 0,
        ensures
            final(self)@ == old(self)@.pair(reply).0,
            Ok::<ActionView, ProtocolViolation>(action@) == old(self)@.pair(reply).1,
            action matches Action::Dispatch { snapshot, .. } && cloned(
                old(self)@.db.current,
                snapshot,
            ),
    {
        let drawlist = self.free.pop().unwrap();
        assert(drawlist == old(self)@.free[old(self)@.free.len() - 1]);
        self.slots.set(
            drawlist,
            DrawlistState::Bound { reply, scene: self.scene, camera: self.camera },
        );
        let snapshot = self.db.current().clone();
        Action::Dispatch { reply, drawlist, scene: self.scene, camera: self.camera, snapshot }
    }

    fn release(&mut self, drawlist: DrawlistId)
        requires
            drawlist < old(self)@.slots.len(),
        ensures
            final(self)@ == (CoordinatorState {
                slots: old(self)@.slots.update(drawlist as int, DrawlistState::Free),
                free: old(self)@.free.push(drawlist),
                ..old(self)@
            }),
    {
        self.slots.set(drawlist, DrawlistState::Free);
        self.free.push(drawlist);
    }

    fn stop_queued(&mut self) -> (replies: Vec<ReplyId>)
        requires
            old(self)@.waiting.len() <= old(self)@.workers,
        ensures
            replies@ == old(self)@.waiting.reverse(),
            final(self)@ == (CoordinatorState {
                waiting: Seq::empty(),
                workers: (old(self)@.workers - old(self)@.waiting.len()) as nat,
                ..old(self)@
            }),
    {
        let mut queue: Vec<ReplyId> = Vec::new();
        std::mem::swap(&mut queue, &mut self.waiting);
        let mut replies: Vec<ReplyId> = Vec::new();
        let mut left: usize = queue.len();
        while left > 0
            invariant
                left <= queue.len(),
                replies.len() == queue.len() - left,
                forall|j: int|
                    0 <= j < replies.len() ==> replies@[j] == queue@[queue.len() - 1 - j],
            decreases left,
        {
            left -= 1;
            replies.push(queue[left]);
        }
        self.workers = self.workers - replies.len();
        assert(replies@ =~= queue@.reverse());
        replies
    }

    fn announce(&mut self, reply: ReplyId) -> (result: StepResult<S>)
        requires
            old(self).wf(),
        ensures
            final(self)@ == old(self)@.announce(reply).0,
            outcome(result) == old(self)@.announce(reply).1,
            carries_clone_of(result, old(self)@.db.current),
    {
        match self.announce_violation(reply) {
            Some(violation) => Err(violation),
            None => {
                if self.scene != NO_OBJECT && self.free.len() > 0 {
                    Ok(self.pair(reply))
                } else {
                    self.waiting.push(reply);
                    Ok(Action::Nothing)
                }
            },
        }
    }

    fn poll_empty(&mut self) -> (result: StepResult<S>)
        requires
            old(self).wf(),
        ensures
            final(self)@ == old(self)@.poll_empty().0,
            outcome(result) == old(self)@.poll_empty().1,
            carries_clone_of(result, old(self)@.db.current),
    {
        if self.scene != NO_OBJECT && self.free.len() > 0 && self.waiting.len() > 0 {
            let reply = self.waiting.pop().unwrap();
            Ok(self.pair(reply))
        } else {
            Ok(Action::Nothing)
        }
    }

    fn complete(&mut self, drawlist: DrawlistId) -> (result: StepResult<S>)
        ensures
            final(self)@ == old(self)@.complete(drawlist).0,
            outcome(result) == old(self)@.complete(drawlist).1,
    {
        if drawlist >= self.slots.len() {
            return Err(ProtocolViolation::DrawlistNotBound);
        }
        match self.slots[drawlist] {
            DrawlistState::Bound { reply, scene, camera } => {
                match self.phase {
                    Phase::Draining { .. } => {
                        self.release(drawlist);
                        Ok(Action::Nothing)
                    },
                    _ => {
                        self.slots.set(drawlist, DrawlistState::Prepared { scene, camera });
                        Ok(Action::Submit { drawlist, camera: self.camera })
                    },
                }
            },
            _ => Err(ProtocolViolation::DrawlistNotBound),
        }
    }

    fn presented(&mut self, drawlist: DrawlistId, now: u64) -> (result: StepResult<S>)
        ensures
            final(self)@ == old(self)@.presented(drawlist, now).0,
            outcome(result) == old(self)@.presented(drawlist, now).1,
    {
        if drawlist >= self.slots.len() {
            return Err(ProtocolViolation::DrawlistNotPrepared);
        }
        match self.slots[drawlist] {
            DrawlistState::Prepared { .. } => {
                let elapsed = if now >= self.time {
                    now - self.time
                } else {
                    0
                };
                self.release(drawlist);
                self.time = now;
                Ok(Action::Frame { elapsed })
            },
            _ => Err(ProtocolViolation::DrawlistNotPrepared),
        }
    }

    fn shutdown(&mut self, ack: ReplyId) -> (result: StepResult<S>)
        requires
            old(self).wf(),
        ensures
            final(self)@ == old(self)@.shutdown(ack).0,
            outcome(result) == old(self)@.shutdown(ack).1,
    {
        let replies = self.stop_queued();
        if self.workers == 0 {
            self.phase = Phase::Terminated;
            Ok(Action::Shutdown { replies, ack: Some(ack) })
        } else {
            self.phase = Phase::Draining { ack };
            Ok(Action::Terminate { replies })
        }
    }

    fn dismiss(&mut self, reply: ReplyId, ack: ReplyId) -> (result: StepResult<S>)
        requires
            old(self).wf(),
        ensures
            final(self)@ == old(self)@.dismiss(reply, ack).0,
            outcome(result) == old(self)@.dismiss(reply, ack).1,
    {
        match self.announce_violation(reply) {
            Some(violation) => Err(violation),
            None => {
                self.workers = self.workers - 1;
                let mut replies: Vec<ReplyId> = Vec::new();
                replies.push(reply);
                assert(replies@ =~= seq![reply]);
                if self.workers == 0 {
                    self.phase = Phase::Terminated;
                    Ok(Action::Shutdown { replies, ack: Some(ack) })
                } else {
                    Ok(Action::Terminate { replies })
                }
            },
        }
    }

    fn disconnect(&mut self) -> (result: StepResult<S>)
        requires
            old(self).wf(),
        ensures
            final(self)@ == old(self)@.disconnect().0,
            outcome(result) == old(self)@.disconnect().1,
    {
        let replies = self.stop_queued();
        self.phase = Phase::Terminated;
        Ok(Action::Shutdown { replies, ack: None })
    }

    /// Takes one step of the state machine: reacts to `event` and returns
    /// the action that the caller has to perform, or the violation of the
    /// protocol that the event amounts to, in which case nothing changes.
    ///
    /// A drawlist that is handed out comes with a clone of the current
    /// snapshot, made in this step.
    pub fn step(&mut self, event: Event<S>) -> (result: StepResult<S>)
        requires
            old(self).wf(),
        ensures
            final(self).wf(),
            final(self)@ == old(self)@.next(event).0,
            outcome(result) == old(self)@.next(event).1,
            carries_clone_of(result, old(self)@.db.current),
    {
        proof {
            lemma_next_inv(self@, event);
        }
        match self.phase {
            Phase::Terminated => Ok(Action::Nothing),
            Phase::Draining { ack } => match event {
                Event::Command(RenderCommand::Waiting(reply)) => self.dismiss(reply, ack),
                Event::Command(RenderCommand::Complete(drawlist)) => self.complete(drawlist),
                Event::Presented { drawlist, now } => self.presented(drawlist, now),
                Event::Disconnected => self.disconnect(),
                _ => Ok(Action::Nothing),
            },
            _ => match event {
                Event::Command(RenderCommand::Update(db, scene, camera)) => {
                    self.db.update(db);
                    self.scene = scene;
                    self.camera = camera;
                    Ok(Action::Reload)
                },
                Event::Command(RenderCommand::Waiting(reply)) => self.announce(reply),
                Event::Command(RenderCommand::Complete(drawlist)) => self.complete(drawlist),
                Event::Command(RenderCommand::Setup(reply)) => {
                    let granted = self.resource;
                    self.resource = false;
                    self.phase = Phase::Running;
                    Ok(Action::Handoff { reply, granted })
                },
                Event::Command(RenderCommand::Finish(ack)) => self.shutdown(ack),
                Event::Idle => self.poll_empty(),
                Event::Disconnected => self.disconnect(),
                Event::Presented { drawlist, now } => self.presented(drawlist, now),
            },
        }
    }

    /// Reports that the drawlist has been rendered and presented just now:
    /// the step for `Event::Presented` at the clock's present reading.
    pub fn presented_now(&mut self, drawlist: DrawlistId) -> (result: StepResult<S>)
        requires
            old(self).wf(),
        ensures
            final(self).wf(),
            exists|now: u64|
                {
                    &&& final(self)@ == old(self)@.next(Event::Presented { drawlist, now }).0
                    &&& outcome(result) == old(self)@.next(Event::Presented { drawlist, now }).1
                },
    {
        let now = precise_time_ns();
        self.step(Event::Presented { drawlist, now })
    }

    /// Decides which resources the current snapshot still needs, given the
    /// geometry that a walk of its scene reaches, and records them as
    /// resident. Owed after `Action::Reload`.
    pub fn load(&mut self, walked: &Vec<ObjectKey>) -> (plan: LoadPlan)
        requires
            old(self).wf(),
        ensures
            final(self).wf(),
            final(self)@ == (CoordinatorState { db: old(self)@.db.load(walked@), ..old(self)@ }),
            plan.vertex@ == crate::db::missing_vertex(old(self)@.db.vertex, walked@),
            plan.shaders@ == old(self)@.db.shaders.missing(),
    {
        self.db.load(walked)
    }
}

} // verus!

//! The renderer as a whole: one coordinator, its workers, and the messages
//! under way between them.
//!
//! Each worker follows the state machine of `worker`. What a worker sends
//! reaches the coordinator in the order in which it was sent; between the
//! messages of different senders there is no order. The control channel
//! is not lost while a worker lives, so its loss is no move of this system.
//! A run of this system never ends in a violation of the protocol, and
//! every drawlist is in one place at a time: `fit` proves both.

use crate::command::{DrawlistId, RenderCommand, ReplyId};
use crate::drawlist::holds;
use crate::model::{listed, ActionView, CoordinatorState, Event, Outcome};
use crate::worker::{WorkerEvent, WorkerPhase, WorkerState};
use vstd::prelude::*;

verus! {

/// A worker and the messages between it and the coordinator.
pub struct Link<S> {
    pub worker: WorkerState,
    /// What the worker has sent and the coordinator has not received yet,
    /// oldest first.
    pub sent: Seq<RenderCommand<S>>,
    /// What the coordinator has replied and the worker has not received
    /// yet, oldest first.
    pub inbox: Seq<WorkerEvent>,
}

/// The state of the renderer.
pub struct SystemState<S> {
    pub coordinator: CoordinatorState<S>,
    /// The workers. The worker at index `i` announces itself as `i`.
    pub links: Seq<Link<S>>,
}

/// What can happen in the renderer.
pub enum Move<S> {
    /// A message of the client, an update or a request to shut down, reaches
    /// the coordinator.
    Client(RenderCommand<S>),
    /// The oldest message of the worker `i` reaches the coordinator.
    Arrive(int),
    /// The coordinator polls the control channel and finds it empty.
    Poll,
    /// The coordinator has rendered and presented a drawlist.
    Present(DrawlistId, u64),
    /// The worker `i` starts.
    Start(int),
    /// The worker `i` receives the oldest reply.
    Take(int),
    /// The worker `i` is done preparing.
    Finish(int),
}

/// Where a drawlist can be.
pub enum Place {
    /// In the coordinator's idle pool.
    Pool,
    /// With the coordinator, queued for submission.
    Submission,
    /// On its way to the worker `i`.
    ToWorker(int),
    /// In the hands of the worker `i`.
    WithWorker(int),
    /// On its way back from the worker `i`.
    FromWorker(int),
}

/// The worker has nothing to do with any drawlist and is not queued: it has
/// yet to announce itself, or its announcement is under way.
pub open spec fn idle<S>(link: Link<S>) -> bool {
    ||| link.worker.phase is Created
    ||| link.worker.phase is AwaitingResource
    ||| link.worker.phase is Ready && link.sent.len() == 1 && link.sent[0] is Waiting
}

/// How many of the workers are idle.
pub open spec fn count_idle<S>(links: Seq<Link<S>>) -> nat
    decreases links.len(),
{
    if links.len() == 0 {
        0
    } else {
        count_idle(links.drop_last()) + if idle(links.last()) {
            1nat
        } else {
            0nat
        }
    }
}

/// What the coordinator's answer to `event` puts in the inbox of the worker
/// `i`. A request for the compute resource that the coordinator drops
/// reaches the worker as an empty reply.
pub open spec fn reply_to<S>(event: Event<S>, outcome: Outcome, i: int) -> Seq<WorkerEvent> {
    match outcome {
        Ok(ActionView::Handoff { reply, granted }) => if reply == i {
            seq![WorkerEvent::Resource { granted }]
        } else {
            Seq::empty()
        },
        Ok(ActionView::Dispatch { reply, drawlist, .. }) => if reply == i {
            seq![WorkerEvent::Reply(Some(drawlist))]
        } else {
            Seq::empty()
        },
        Ok(ActionView::Terminate { replies }) => if replies.contains(i as ReplyId) {
            seq![WorkerEvent::Reply(None)]
        } else {
            Seq::empty()
        },
        Ok(ActionView::Shutdown { replies, .. }) => if replies.contains(i as ReplyId) {
            seq![WorkerEvent::Reply(None)]
        } else {
            Seq::empty()
        },
        Ok(ActionView::Nothing) => if event matches Event::Command(RenderCommand::Setup(reply))
            && reply == i {
            seq![WorkerEvent::Resource { granted: false }]
        } else {
            Seq::empty()
        },
        _ => Seq::empty(),
    }
}

/// Every worker that is queued or has a drawlist is one of the `n` workers
/// of the renderer.
pub open spec fn workers_known<S>(c: CoordinatorState<S>, n: nat) -> bool {
    &&& forall|k: int| 0 <= k < c.waiting.len() ==> (#[trigger] c.waiting[k]) < n
    &&& forall|d: int|
        0 <= d < c.slots.len() ==> ((#[trigger] c.slots[d]).holder() matches Some(reply)
            ==> reply < n)
}

/// The worker `i` and its messages agree with what the coordinator knows of
/// it.
pub open spec fn link_ok<S>(c: CoordinatorState<S>, i: int, link: Link<S>) -> bool {
    let reply = link.worker.reply;
    let queued = c.waiting.contains(reply);
    let holding = holds(c.slots, reply);
    let sent = link.sent;
    let inbox = link.inbox;
    &&& reply == i
    &&& match link.worker.phase {
        WorkerPhase::Created => sent.len() == 0 && inbox.len() == 0 && !queued && !holding,
        WorkerPhase::AwaitingResource => {
            &&& !queued
            &&& !holding
            &&& {
                ||| sent.len() == 1 && sent[0] == RenderCommand::<S>::Setup(reply) && inbox.len()
                    == 0
                ||| sent.len() == 0 && inbox.len() == 1 && inbox[0] is Resource
            }
        },
        WorkerPhase::Ready => {
            // The announcement is under way.
            ||| sent.len() == 1 && sent[0] == RenderCommand::<S>::Waiting(reply) && inbox.len()
                == 0 && !queued && !holding
            // A drawlist is on its way back and the announcement follows it.
            ||| sent.len() == 2 && sent[1] == RenderCommand::<S>::Waiting(reply) && inbox.len()
                == 0 && !queued && (sent[0] matches RenderCommand::Complete(d) && d
                < c.slots.len() && c.slots[d as int].held_by(reply))
            // The worker is queued.
            ||| sent.len() == 0 && inbox.len() == 0 && queued && !holding
            // A drawlist is on its way to the worker.
            ||| sent.len() == 0 && inbox.len() == 1 && !queued && (
            inbox[0] matches WorkerEvent::Reply(Some(d)) && d < c.slots.len()
                && c.slots[d as int].held_by(reply))
            // The termination signal is on its way to the worker.
            ||| sent.len() == 0 && inbox.len() == 1 && inbox[0] == WorkerEvent::Reply(None)
                && !queued && !holding
        },
        WorkerPhase::Preparing { drawlist } => sent.len() == 0 && inbox.len() == 0 && !queued
            && drawlist < c.slots.len() && c.slots[drawlist as int].held_by(reply),
        WorkerPhase::Stopped => sent.len() == 0 && inbox.len() == 0 && !queued && !holding,
    }
}

impl<S> SystemState<S> {
    /// The renderer at startup: the coordinator as `init` makes it for as
    /// many workers as there are, no worker started, no message under way.
    pub open spec fn starts(self) -> bool {
        &&& self.coordinator == CoordinatorState::init(
            self.coordinator.db,
            self.coordinator.pool_size(),
            self.links.len(),
            self.coordinator.resource,
            self.coordinator.time,
        )
        &&& self.coordinator.pool_size() <= usize::MAX
        &&& self.links.len() <= u64::MAX
        &&& forall|i: int|
            0 <= i < self.links.len() ==> (#[trigger] self.links[i]) == (Link::<S> {
                worker: WorkerState { reply: i as ReplyId, phase: WorkerPhase::Created },
                sent: Seq::empty(),
                inbox: Seq::empty(),
            })
    }

    /// The move can be made.
    pub open spec fn enabled(self, m: Move<S>) -> bool {
        match m {
            Move::Client(command) => command is Update || command is Finish,
            Move::Arrive(i) => 0 <= i < self.links.len() && self.links[i].sent.len() > 0,
            Move::Poll => !self.coordinator.must_block(),
            Move::Present(drawlist, _) => drawlist < self.coordinator.pool_size()
                && self.coordinator.slots[drawlist as int] is Prepared,
            Move::Start(i) => 0 <= i < self.links.len() && self.links[i].worker.phase is Created,
            Move::Take(i) => 0 <= i < self.links.len() && self.links[i].inbox.len() > 0,
            Move::Finish(i) => 0 <= i < self.links.len() && self.links[i].worker.phase
                is Preparing,
        }
    }

    /// The event that a move of the coordinator hands to its state machine.
    pub open spec fn event(self, m: Move<S>) -> Event<S>
        recommends
            m is Client || m is Arrive || m is Poll || m is Present,
    {
        match m {
            Move::Client(command) => Event::Command(command),
            Move::Arrive(i) => Event::Command(self.links[i].sent.first()),
            Move::Present(drawlist, now) => Event::Presented { drawlist, now },
            _ => Event::Idle,
        }
    }

    /// A step of the coordinator: its state machine moves, the message that
    /// arrived has left the channel, and the replies are under way.
    pub open spec fn coordinate(self, m: Move<S>) -> SystemState<S> {
        let event = self.event(m);
        let (coordinator, outcome) = self.coordinator.next(event);
        SystemState {
            coordinator,
            links: Seq::new(
                self.links.len(),
                |j: int|
                    Link {
                        worker: self.links[j].worker,
                        sent: if m == Move::<S>::Arrive(j) {
                            self.links[j].sent.drop_first()
                        } else {
                            self.links[j].sent
                        },
                        inbox: self.links[j].inbox + reply_to(event, outcome, j),
                    },
            ),
        }
    }

    /// A step of the worker `i` on `event`: its state machine moves and what
    /// it sends is under way.
    pub open spec fn work(self, i: int, event: WorkerEvent, took: bool) -> SystemState<S> {
        let link = self.links[i];
        let (worker, action) = link.worker.next(event);
        SystemState {
            links: self.links.update(
                i,
                Link {
                    worker,
                    sent: if action is Some {
                        link.sent + action->0.commands::<S>()
                    } else {
                        link.sent
                    },
                    inbox: if took {
                        link.inbox.drop_first()
                    } else {
                        link.inbox
                    },
                },
            ),
            ..self
        }
    }

    /// The event that a move of a worker hands to its state machine.
    pub open spec fn worker_event(self, m: Move<S>) -> WorkerEvent
        recommends
            m is Start || m is Take || m is Finish,
    {
        match m {
            Move::Take(i) => self.links[i].inbox.first(),
            Move::Finish(_) => WorkerEvent::Prepared,
            _ => WorkerEvent::Start,
        }
    }

    /// The state after a move.
    pub open spec fn next(self, m: Move<S>) -> SystemState<S> {
        match m {
            Move::Start(i) => self.work(i, self.worker_event(m), false),
            Move::Take(i) => self.work(i, self.worker_event(m), true),
            Move::Finish(i) => self.work(i, self.worker_event(m), false),
            _ => self.coordinate(m),
        }
    }

    /// The move runs into a fault: the coordinator finds a violation of the
    /// protocol, or a worker gets an event that cannot happen in its phase.
    pub open spec fn faulty(self, m: Move<S>) -> bool {
        match m {
            Move::Start(i) => self.links[i].worker.next(self.worker_event(m)).1 is None,
            Move::Take(i) => self.links[i].worker.next(self.worker_event(m)).1 is None,
            Move::Finish(i) => self.links[i].worker.next(self.worker_event(m)).1 is None,
            _ => self.coordinator.next(self.event(m)).1 is Err,
        }
    }

    /// The state after the moves of `moves`, made in order.
    pub open spec fn run(self, moves: Seq<Move<S>>) -> SystemState<S>
        decreases moves.len(),
    {
        if moves.len() == 0 {
            self
        } else {
            self.run(moves.drop_last()).next(moves.last())
        }
    }

    /// Each of `moves` can be made when its turn comes.
    pub open spec fn admits(self, moves: Seq<Move<S>>) -> bool {
        forall|k: int|
            0 <= k < moves.len() ==> self.run(moves.take(k)).enabled(#[trigger] moves[k])
    }

    /// The drawlist is at `place`.
    pub open spec fn at(self, drawlist: DrawlistId, place: Place) -> bool {
        match place {
            Place::Pool => listed(self.coordinator.free, drawlist as int),
            Place::Submission => self.coordinator.slots[drawlist as int] is Prepared,
            Place::ToWorker(i) => 0 <= i < self.links.len() && self.links[i].inbox.contains(
                WorkerEvent::Reply(Some(drawlist)),
            ),
            Place::WithWorker(i) => 0 <= i < self.links.len() && self.links[i].worker.phase == (
            WorkerPhase::Preparing { drawlist }),
            Place::FromWorker(i) => 0 <= i < self.links.len() && self.links[i].sent.contains(
                RenderCommand::Complete(drawlist),
            ),
        }
    }

    /// What holds of every state that the renderer can reach.
    pub open spec fn inv(self) -> bool {
        let c = self.coordinator;
        &&& c.inv()
        &&& self.links.len() <= u64::MAX
        &&& forall|i: int| 0 <= i < self.links.len() ==> link_ok(c, i, #[trigger] self.links[i])
        &&& workers_known(c, self.links.len())
        // The live workers are those that are queued, those that have a
        // drawlist, and those that are idle.
        &&& c.workers == c.waiting.len() + c.in_flight() + count_idle(self.links)
        // The loop ends only when no worker is left.
        &&& c.phase is Terminated ==> c.workers == 0
    }
}

} // verus!

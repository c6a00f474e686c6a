//! The worker task as a state machine: it asks for the compute resource,
//! then announces itself, prepares the drawlist it is sent, gives it back
//! and announces itself again, until it is told to stop.

use crate::command::{DrawlistId, RenderCommand, ReplyId};
use crate::drawlist::{holds, lemma_count_update, Stage};
use crate::model::{ActionView, CoordinatorState, Event, ProtocolViolation};
use crate::safety::lemma_single_owner;
use crate::validity::lemma_next_inv;
use vstd::prelude::*;

verus! {

/// Where a worker stands.
#[derive(Clone, Copy, Debug, PartialEq, Eq, Structural)]
pub enum WorkerPhase {
    /// Not started.
    Created,
    /// Has asked for the compute resource and awaits the reply.
    AwaitingResource,
    /// Has announced itself and awaits a drawlist or the termination signal.
    Ready,
    /// Prepares the drawlist it was sent.
    Preparing { drawlist: DrawlistId },
    /// Was told to stop. Nothing happens any more.
    Stopped,
}

/// What happens to a worker.
#[derive(Clone, Copy, Debug, PartialEq, Eq, Structural)]
pub enum WorkerEvent {
    /// The task starts.
    Start,
    /// The request for the compute resource was answered, with the resource
    /// or with nothing, or was dropped unanswered, which counts as nothing.
    Resource { granted: bool },
    /// The announcement was answered: with a drawlist to prepare, or with
    /// nothing, which is the termination signal.
    Reply(Option<DrawlistId>),
    /// The preparation of the drawlist in hand is done.
    Prepared,
}

/// What a worker has to do next.
#[derive(Clone, Copy, Debug, PartialEq, Eq, Structural)]
pub enum WorkerAction {
    /// Send `Setup(reply)` and wait for the answer.
    RequestResource { reply: ReplyId },
    /// Send `Waiting(reply)` and wait for the answer.
    Announce { reply: ReplyId },
    /// Prepare the drawlist: cull, resolve, sort. No use of the graphics
    /// context.
    Prepare { drawlist: DrawlistId },
    /// Send `Complete(drawlist)` and after it `Waiting(reply)`, and wait for
    /// the answer.
    Return { drawlist: DrawlistId, reply: ReplyId },
    /// Leave the loop.
    Exit,
}

impl WorkerAction {
    /// The messages that the action puts on the control channel, in order.
    pub open spec fn commands<S>(self) -> Seq<RenderCommand<S>> {
        match self {
            WorkerAction::RequestResource { reply } => seq![RenderCommand::Setup(reply)],
            WorkerAction::Announce { reply } => seq![RenderCommand::Waiting(reply)],
            WorkerAction::Prepare { .. } => Seq::empty(),
            WorkerAction::Return { drawlist, reply } => seq![
                RenderCommand::Complete(drawlist),
                RenderCommand::Waiting(reply),
            ],
            WorkerAction::Exit => Seq::empty(),
        }
    }

    /// The messages to send for this action, in order.
    pub fn to_commands<S>(&self) -> (commands: Vec<RenderCommand<S>>)
        ensures
            commands@ == self.commands::<S>(),
    {
        let mut commands: Vec<RenderCommand<S>> = Vec::new();
        match *self {
            WorkerAction::RequestResource { reply } => {
                commands.push(RenderCommand::Setup(reply));
            },
            WorkerAction::Announce { reply } => {
                commands.push(RenderCommand::Waiting(reply));
            },
            WorkerAction::Prepare { .. } => {},
            WorkerAction::Return { drawlist, reply } => {
                commands.push(RenderCommand::Complete(drawlist));
                commands.push(RenderCommand::Waiting(reply));
            },
            WorkerAction::Exit => {},
        }
        commands
    }
}

/// The state of a worker.
pub struct WorkerState {
    /// The name under which the worker announces itself.
    pub reply: ReplyId,
    pub phase: WorkerPhase,
}

impl WorkerState {
    /// The next state and the action owed, or `None` where the event cannot
    /// happen in this phase, which leaves the state as it was.
    pub open spec fn next(self, event: WorkerEvent) -> (WorkerState, Option<WorkerAction>) {
        match (self.phase, event) {
            (WorkerPhase::Created, WorkerEvent::Start) => (
                WorkerState { phase: WorkerPhase::AwaitingResource, ..self },
                Some(WorkerAction::RequestResource { reply: self.reply }),
            ),
            (WorkerPhase::AwaitingResource, WorkerEvent::Resource { .. }) => (
                WorkerState { phase: WorkerPhase::Ready, ..self },
                Some(WorkerAction::Announce { reply: self.reply }),
            ),
            (WorkerPhase::Ready, WorkerEvent::Reply(Some(drawlist))) => (
                WorkerState { phase: WorkerPhase::Preparing { drawlist }, ..self },
                Some(WorkerAction::Prepare { drawlist }),
            ),
            (WorkerPhase::Ready, WorkerEvent::Reply(None)) => (
                WorkerState { phase: WorkerPhase::Stopped, ..self },
                Some(WorkerAction::Exit),
            ),
            (WorkerPhase::Preparing { drawlist }, WorkerEvent::Prepared) => (
                WorkerState { phase: WorkerPhase::Ready, ..self },
                Some(WorkerAction::Return { drawlist, reply: self.reply }),
            ),
            _ => (self, None),
        }
    }
}

/// A worker task.
pub struct Worker {
    reply: ReplyId,
    phase: WorkerPhase,
}

impl View for Worker {
    type V = WorkerState;

    closed spec fn view(&self) -> WorkerState {
        WorkerState { reply: self.reply, phase: self.phase }
    }
}

impl Worker {
    /// A worker that will announce itself as `reply`.
    pub fn new(reply: ReplyId) -> (w: Worker)
        ensures
            w@ == (WorkerState { reply, phase: WorkerPhase::Created }),
    {
        Worker { reply, phase: WorkerPhase::Created }
    }

    pub fn reply(&self) -> (reply: ReplyId)
        ensures
            reply == self@.reply,
    {
        self.reply
    }

    pub fn phase(&self) -> (phase: WorkerPhase)
        ensures
            phase == self@.phase,
    {
        self.phase
    }

    /// Whether the worker was told to stop.
    pub fn is_stopped(&self) -> (r: bool)
        ensures
            r == (self@.phase is Stopped),
    {
        match self.phase {
            WorkerPhase::Stopped => true,
            _ => false,
        }
    }

    /// Takes one step: reacts to `event` and returns what to do next, or
    /// `None` if the event cannot happen in this phase, in which case
    /// nothing changes.
    pub fn step(&mut self, event: WorkerEvent) -> (action: Option<WorkerAction>)
        ensures
            final(self)@ == old(self)@.next(event).0,
            action == old(self)@.next(event).1,
    {
        match (self.phase, event) {
            (WorkerPhase::Created, WorkerEvent::Start) => {
                self.phase = WorkerPhase::AwaitingResource;
                Some(WorkerAction::RequestResource { reply: self.reply })
            },
            (WorkerPhase::AwaitingResource, WorkerEvent::Resource { .. }) => {
                self.phase = WorkerPhase::Ready;
                Some(WorkerAction::Announce { reply: self.reply })
            },
            (WorkerPhase::Ready, WorkerEvent::Reply(Some(drawlist))) => {
                self.phase = WorkerPhase::Preparing { drawlist };
                Some(WorkerAction::Prepare { drawlist })
            },
            (WorkerPhase::Ready, WorkerEvent::Reply(None)) => {
                self.phase = WorkerPhase::Stopped;
                Some(WorkerAction::Exit)
            },
            (WorkerPhase::Preparing { drawlist }, WorkerEvent::Prepared) => {
                self.phase = WorkerPhase::Ready;
                Some(WorkerAction::Return { drawlist, reply: self.reply })
            },
            _ => None,
        }
    }
}

/// A worker has at most the one drawlist that its phase names. It takes a
/// drawlist only with empty hands, gives back none but the one it has, and
/// announces itself only after it has put that one on the channel.
pub proof fn lemma_worker_holds_one(w: WorkerState, event: WorkerEvent)
    ensures
        ({
            let (after, action) = w.next(event);
            &&& after.reply == w.reply
            &&& action is None ==> after == w
            &&& after.phase matches WorkerPhase::Preparing { drawlist } ==> after == w || (w.phase
                is Ready && event == WorkerEvent::Reply(Some(drawlist)))
            &&& action matches Some(WorkerAction::Return { drawlist, reply }) ==> w.phase == (
            WorkerPhase::Preparing { drawlist }) && reply == w.reply && after.phase is Ready
            &&& action matches Some(WorkerAction::Announce { reply }) ==> reply == w.reply
                && after.phase is Ready
            &&& w.phase is Preparing ==> action is None || action is Some && action->0 is Return
        }),
{
}

/// A worker that gives its drawlist back and then announces itself, as
/// `WorkerAction::Return` has it, is never at fault: the coordinator takes
/// the drawlist and accepts the announcement.
pub proof fn lemma_return_is_accepted<S>(
    s: CoordinatorState<S>,
    w: WorkerState,
    drawlist: DrawlistId,
)
    requires
        s.inv(),
        !(s.phase is Terminated),
        w.phase == (WorkerPhase::Preparing { drawlist }),
        drawlist < s.pool_size(),
        s.slots[drawlist as int].held_by(w.reply),
    ensures
        ({
            let commands = w.next(WorkerEvent::Prepared).1->0.commands::<S>();
            let (t, given_back) = s.next(Event::Command(commands[0]));
            let (u, announced) = t.next(Event::Command(commands[1]));
            &&& commands.len() == 2
            &&& given_back is Ok
            &&& announced is Ok
        }),
{
    let commands = w.next(WorkerEvent::Prepared).1->0.commands::<S>();
    assert(commands[0] == RenderCommand::<S>::Complete(drawlist));
    assert(commands[1] == RenderCommand::<S>::Waiting(w.reply));
    let t = s.next(Event::Command(commands[0])).0;
    lemma_next_inv(s, Event::Command(commands[0]));
    lemma_count_update(
        s.slots,
        drawlist as int,
        t.slots[drawlist as int],
        Stage::Bound,
    );
    if holds(t.slots, w.reply) {
        let e = choose|e: int| 0 <= e < t.slots.len() && #[trigger] t.slots[e].held_by(w.reply);
        assert(s.slots[e].held_by(w.reply));
        lemma_single_owner(s, drawlist as int);
    }
    if t.waiting.contains(w.reply) {
        let i = choose|i: int| 0 <= i < s.waiting.len() && s.waiting[i] == w.reply;
        assert(holds(s.slots, s.waiting[i]));
    }
}

/// Announcing first and giving the drawlist back afterwards is a violation
/// of the protocol: the announcement is refused.
pub proof fn lemma_announcing_early_is_refused<S>(
    s: CoordinatorState<S>,
    reply: ReplyId,
    drawlist: DrawlistId,
)
    requires
        s.inv(),
        !(s.phase is Terminated),
        drawlist < s.pool_size(),
        s.slots[drawlist as int].held_by(reply),
    ensures
        s.next(Event::Command(RenderCommand::Waiting(reply))) == (
            s,
            Err::<ActionView, ProtocolViolation>(
                ProtocolViolation::WorkerHoldsDrawlist,
            ),
        ),
{
    assert(holds(s.slots, reply));
}

} // verus!

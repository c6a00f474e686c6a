use snowmew_render::command::RenderCommand;
use snowmew_render::coordinator::{Action, Coordinator};
use snowmew_render::model::Event;
use snowmew_render::worker::{Worker, WorkerAction, WorkerEvent, WorkerPhase};

const ME: u64 = 3;

#[test]
fn a_worker_asks_for_the_resource_then_announces_itself() {
    let mut w = Worker::new(ME);
    assert_eq!(w.reply(), ME);
    assert_eq!(w.phase(), WorkerPhase::Created);
    assert_eq!(w.step(WorkerEvent::Start), Some(WorkerAction::RequestResource { reply: ME }));
    assert_eq!(w.phase(), WorkerPhase::AwaitingResource);
    assert_eq!(
        w.step(WorkerEvent::Resource { granted: false }),
        Some(WorkerAction::Announce { reply: ME })
    );
    assert_eq!(w.phase(), WorkerPhase::Ready);
}

#[test]
fn a_worker_prepares_gives_back_and_announces_itself_again() {
    let mut w = Worker::new(ME);
    w.step(WorkerEvent::Start);
    w.step(WorkerEvent::Resource { granted: true });
    assert_eq!(
        w.step(WorkerEvent::Reply(Some(1))),
        Some(WorkerAction::Prepare { drawlist: 1 })
    );
    assert_eq!(w.phase(), WorkerPhase::Preparing { drawlist: 1 });
    let back = w.step(WorkerEvent::Prepared).unwrap();
    assert_eq!(back, WorkerAction::Return { drawlist: 1, reply: ME });
    assert_eq!(w.phase(), WorkerPhase::Ready);
    let commands = back.to_commands::<()>();
    assert_eq!(commands.len(), 2);
    assert!(matches!(commands[0], RenderCommand::Complete(1)));
    assert!(matches!(commands[1], RenderCommand::Waiting(ME)));
}

#[test]
fn a_worker_stops_on_the_termination_signal() {
    let mut w = Worker::new(ME);
    w.step(WorkerEvent::Start);
    w.step(WorkerEvent::Resource { granted: false });
    assert_eq!(w.step(WorkerEvent::Reply(None)), Some(WorkerAction::Exit));
    assert!(w.is_stopped());
    assert_eq!(w.step(WorkerEvent::Start), None);
    assert_eq!(w.step(WorkerEvent::Reply(Some(0))), None);
    assert_eq!(w.step(WorkerEvent::Reply(None)), None);
    assert!(w.is_stopped());
}

#[test]
fn a_worker_ignores_what_cannot_happen() {
    let mut w = Worker::new(ME);
    assert_eq!(w.step(WorkerEvent::Reply(Some(0))), None);
    assert_eq!(w.step(WorkerEvent::Prepared), None);
    assert_eq!(w.step(WorkerEvent::Resource { granted: true }), None);
    assert_eq!(w.phase(), WorkerPhase::Created);
    w.step(WorkerEvent::Start);
    assert_eq!(w.step(WorkerEvent::Start), None);
    assert_eq!(w.step(WorkerEvent::Reply(None)), None);
    assert_eq!(w.phase(), WorkerPhase::AwaitingResource);
    w.step(WorkerEvent::Resource { granted: true });
    assert_eq!(w.step(WorkerEvent::Prepared), None);
    w.step(WorkerEvent::Reply(Some(4)));
    assert_eq!(w.step(WorkerEvent::Reply(Some(5))), None);
    assert_eq!(w.step(WorkerEvent::Reply(None)), None);
    assert_eq!(w.phase(), WorkerPhase::Preparing { drawlist: 4 });
    assert!(!w.is_stopped());
}

#[test]
fn the_commands_of_each_action() {
    let ask = WorkerAction::RequestResource { reply: ME }.to_commands::<()>();
    assert_eq!(ask.len(), 1);
    assert!(matches!(ask[0], RenderCommand::Setup(ME)));
    let announce = WorkerAction::Announce { reply: ME }.to_commands::<()>();
    assert_eq!(announce.len(), 1);
    assert!(matches!(announce[0], RenderCommand::Waiting(ME)));
    assert!(WorkerAction::Prepare { drawlist: 0 }.to_commands::<()>().is_empty());
    assert!(WorkerAction::Exit.to_commands::<()>().is_empty());
}

/// Runs a coordinator and its workers in one thread: a queue stands for the
/// control channel, a mailbox per worker for its reply channel.
fn simulate(pool: usize, workers: u64, frames: usize) -> (usize, usize) {
    let ack = 1_000;
    let mut coordinator = Coordinator::new(0u32, pool, workers as usize, false, 0);
    let mut tasks: Vec<Worker> = (0..workers).map(Worker::new).collect();
    let mut channel: Vec<RenderCommand<u32>> = vec![RenderCommand::Update(1, 1, 1)];
    for task in tasks.iter_mut() {
        channel.extend(task.step(WorkerEvent::Start).unwrap().to_commands());
    }
    let mut presented = 0;
    let mut acknowledged = 0;
    let mut clock = 0;
    let mut asked = false;
    while !coordinator.is_terminated() {
        let event = if channel.is_empty() {
            assert!(!coordinator.must_block(), "the run would hang");
            Event::Idle
        } else {
            Event::Command(channel.remove(0))
        };
        let mut action = coordinator.step(event).unwrap();
        if let Action::Submit { drawlist, .. } = action {
            clock += 10;
            presented += 1;
            action = coordinator.step(Event::Presented { drawlist, now: clock }).unwrap();
            assert_eq!(action, Action::Frame { elapsed: 10 });
        }
        let mut replies: Vec<(u64, WorkerEvent)> = Vec::new();
        match action {
            Action::Handoff { reply, granted } => {
                replies.push((reply, WorkerEvent::Resource { granted }))
            }
            Action::Dispatch { reply, drawlist, .. } => {
                replies.push((reply, WorkerEvent::Reply(Some(drawlist))))
            }
            Action::Terminate { replies: stopped } => {
                replies.extend(stopped.into_iter().map(|r| (r, WorkerEvent::Reply(None))))
            }
            Action::Shutdown { replies: stopped, ack: given } => {
                replies.extend(stopped.into_iter().map(|r| (r, WorkerEvent::Reply(None))));
                if given == Some(ack) {
                    acknowledged += 1;
                }
            }
            _ => {}
        }
        for (reply, event) in replies {
            let task = &mut tasks[reply as usize];
            let mut next = task.step(event).unwrap();
            if let WorkerAction::Prepare { .. } = next {
                next = task.step(WorkerEvent::Prepared).unwrap();
            }
            channel.extend(next.to_commands());
        }
        assert_eq!(
            coordinator.free_count() + coordinator.in_flight() + coordinator.pending(),
            pool
        );
        if presented >= frames && !asked {
            channel.push(RenderCommand::Finish(ack));
            asked = true;
        }
    }
    assert!(tasks.iter().all(|task| task.is_stopped()));
    assert_eq!(coordinator.workers(), 0);
    assert_eq!(coordinator.in_flight(), 0);
    (presented, acknowledged)
}

#[test]
fn one_worker_and_the_coordinator_run_and_stop() {
    let (presented, acknowledged) = simulate(2, 1, 5);
    assert!(presented >= 5);
    assert_eq!(acknowledged, 1);
}

#[test]
fn more_workers_than_drawlists_run_and_stop() {
    let (presented, acknowledged) = simulate(2, 4, 12);
    assert!(presented >= 12);
    assert_eq!(acknowledged, 1);
}

#[test]
fn no_worker_at_all_stops_at_once() {
    let (presented, acknowledged) = simulate(2, 0, 0);
    assert_eq!(presented, 0);
    assert_eq!(acknowledged, 1);
}

use snowmew_render::command::RenderCommand;
use snowmew_render::coordinator::{Action, Coordinator};
use snowmew_render::db::ShaderSlot;
use snowmew_render::drawlist::DrawlistState;
use snowmew_render::model::{Event, Phase, ProtocolViolation};

const WORKER: u64 = 7;
const OTHER: u64 = 8;
const ACK: u64 = 99;

type Scene = &'static str;

fn command(c: &mut Coordinator<Scene>, cmd: RenderCommand<Scene>) -> Action<Scene> {
    c.step(Event::Command(cmd)).unwrap()
}

fn dispatch(reply: u64, drawlist: usize, scene: u32, camera: u32, db: Scene) -> Action<Scene> {
    Action::Dispatch { reply, drawlist, scene, camera, snapshot: db }
}

fn conserved(c: &Coordinator<Scene>) -> bool {
    c.free_count() + c.in_flight() + c.pending() == c.pool_size()
}

#[test]
fn one_worker_renders_a_frame_and_shuts_down() {
    let mut c = Coordinator::new("empty", 2, 1, false, 1_000);
    assert_eq!(c.pool_size(), 2);
    assert_eq!(c.free_count(), 2);

    assert_eq!(command(&mut c, RenderCommand::Update("S0", 1, 1)), Action::Reload);
    assert_eq!(*c.db().current(), "S0");

    let sent = command(&mut c, RenderCommand::Waiting(WORKER));
    assert_eq!(sent, dispatch(WORKER, 1, 1, 1, "S0"));
    assert_eq!(*c.db().current(), "S0");
    assert_eq!(
        c.drawlist(1),
        Some(DrawlistState::Bound { reply: WORKER, scene: 1, camera: 1 })
    );
    assert_eq!((c.free_count(), c.in_flight(), c.pending()), (1, 1, 0));

    let submit = command(&mut c, RenderCommand::Complete(1));
    assert_eq!(submit, Action::Submit { drawlist: 1, camera: 1 });
    assert_eq!(c.drawlist(1), Some(DrawlistState::Prepared { scene: 1, camera: 1 }));
    assert_eq!((c.free_count(), c.in_flight(), c.pending()), (1, 0, 1));

    let frame = c.step(Event::Presented { drawlist: 1, now: 17_000 }).unwrap();
    assert_eq!(frame, Action::Frame { elapsed: 16_000 });
    assert_eq!((c.free_count(), c.in_flight(), c.pending()), (2, 0, 0));
    assert_eq!(c.drawlist(1), Some(DrawlistState::Free));

    let drain = command(&mut c, RenderCommand::Finish(ACK));
    assert_eq!(drain, Action::Terminate { replies: vec![] });
    assert_eq!(c.phase(), Phase::Draining { ack: ACK });
    assert!(!c.is_terminated());

    let stop = command(&mut c, RenderCommand::Waiting(WORKER));
    assert_eq!(stop, Action::Shutdown { replies: vec![WORKER], ack: Some(ACK) });
    assert!(c.is_terminated());
    assert_eq!(c.workers(), 0);
    assert_eq!(c.free_count(), 2);
}

#[test]
fn shutdown_without_workers_is_acknowledged_at_once() {
    let mut c = Coordinator::new("empty", 2, 0, false, 0);
    let stop = command(&mut c, RenderCommand::Finish(ACK));
    assert_eq!(stop, Action::Shutdown { replies: vec![], ack: Some(ACK) });
    assert!(c.is_terminated());
    assert_eq!(c.workers(), 0);
}

#[test]
fn second_of_two_updates_is_bound() {
    let mut c = Coordinator::new("empty", 2, 1, false, 0);
    assert_eq!(command(&mut c, RenderCommand::Update("first", 1, 2)), Action::Reload);
    assert_eq!(command(&mut c, RenderCommand::Update("second", 3, 4)), Action::Reload);
    assert_eq!(*c.db().current(), "second");
    assert_eq!(*c.db().last(), "first");
    assert_eq!((c.scene(), c.camera()), (3, 4));

    let sent = command(&mut c, RenderCommand::Waiting(WORKER));
    assert_eq!(sent, dispatch(WORKER, 1, 3, 4, "second"));
    assert_eq!(*c.db().current(), "second");
    assert_eq!(*c.db().last(), "first");
}

#[test]
fn a_new_coordinator_awaits_the_resource_request() {
    let c: Coordinator<Scene> = Coordinator::new("empty", 3, 2, true, 5);
    assert_eq!(c.phase(), Phase::AwaitingResourceSetup);
    assert_eq!((c.pool_size(), c.free_count(), c.in_flight(), c.pending()), (3, 3, 0, 0));
    assert_eq!((c.workers(), c.waiting_count()), (2, 0));
    assert_eq!((c.scene(), c.camera()), (0, 0));
    assert_eq!(*c.db().current(), "empty");
    assert_eq!(*c.db().last(), "empty");
    assert_eq!(c.drawlist(2), Some(DrawlistState::Free));
    assert_eq!(c.drawlist(3), None);
    assert!(c.must_block());
}

#[test]
fn the_resource_is_handed_over_once() {
    let mut c = Coordinator::new("empty", 2, 1, true, 0);
    let first = command(&mut c, RenderCommand::Setup(WORKER));
    assert_eq!(first, Action::Handoff { reply: WORKER, granted: true });
    assert_eq!(c.phase(), Phase::Running);
    let second = command(&mut c, RenderCommand::Setup(OTHER));
    assert_eq!(second, Action::Handoff { reply: OTHER, granted: false });
    assert_eq!(c.phase(), Phase::Running);
}

#[test]
fn a_request_for_an_absent_resource_starts_the_loop_too() {
    let mut c = Coordinator::new("empty", 2, 1, false, 0);
    let first = command(&mut c, RenderCommand::Setup(WORKER));
    assert_eq!(first, Action::Handoff { reply: WORKER, granted: false });
    assert_eq!(c.phase(), Phase::Running);
}

#[test]
fn a_worker_without_a_scene_is_queued_and_served_by_the_poll() {
    let mut c = Coordinator::new("empty", 2, 1, false, 0);
    assert_eq!(command(&mut c, RenderCommand::Waiting(WORKER)), Action::Nothing);
    assert_eq!(c.waiting_count(), 1);
    assert!(c.must_block());
    assert_eq!(c.step(Event::Idle), Ok(Action::Nothing));

    assert_eq!(command(&mut c, RenderCommand::Update("S0", 4, 5)), Action::Reload);
    assert!(!c.must_block());
    let sent = c.step(Event::Idle).unwrap();
    assert_eq!(sent, dispatch(WORKER, 1, 4, 5, "S0"));
    assert_eq!(c.waiting_count(), 0);
    assert!(c.must_block());
}

#[test]
fn an_exhausted_pool_makes_workers_wait() {
    let mut c = Coordinator::new("empty", 1, 2, false, 100);
    command(&mut c, RenderCommand::Update("S0", 1, 1));
    let first = command(&mut c, RenderCommand::Waiting(WORKER));
    assert_eq!(first, dispatch(WORKER, 0, 1, 1, "S0"));
    assert_eq!(command(&mut c, RenderCommand::Waiting(OTHER)), Action::Nothing);
    assert!(c.must_block());
    assert!(conserved(&c));

    assert_eq!(
        command(&mut c, RenderCommand::Complete(0)),
        Action::Submit { drawlist: 0, camera: 1 }
    );
    assert!(c.must_block());
    assert!(conserved(&c));
    assert_eq!(
        c.step(Event::Presented { drawlist: 0, now: 350 }),
        Ok(Action::Frame { elapsed: 250 })
    );
    assert!(!c.must_block());
    let second = c.step(Event::Idle).unwrap();
    assert_eq!(second, dispatch(OTHER, 0, 1, 1, "S0"));
    assert!(conserved(&c));
}

#[test]
fn the_pool_is_a_stack() {
    let mut c = Coordinator::new("empty", 3, 3, false, 0);
    command(&mut c, RenderCommand::Update("S0", 1, 1));
    for (worker, drawlist) in [(10, 2), (11, 1), (12, 0)] {
        let sent = command(&mut c, RenderCommand::Waiting(worker));
        assert_eq!(sent, dispatch(worker, drawlist, 1, 1, "S0"));
        assert!(conserved(&c));
    }
    assert_eq!((c.free_count(), c.in_flight()), (0, 3));
    command(&mut c, RenderCommand::Complete(2));
    c.step(Event::Presented { drawlist: 2, now: 1 }).unwrap();
    command(&mut c, RenderCommand::Complete(0));
    c.step(Event::Presented { drawlist: 0, now: 2 }).unwrap();
    let sent = command(&mut c, RenderCommand::Waiting(10));
    assert_eq!(sent, dispatch(10, 0, 1, 1, "S0"));
    assert!(conserved(&c));
}

#[test]
fn submission_uses_the_camera_of_the_moment() {
    let mut c = Coordinator::new("empty", 2, 1, false, 0);
    command(&mut c, RenderCommand::Update("S0", 1, 2));
    command(&mut c, RenderCommand::Waiting(WORKER));
    command(&mut c, RenderCommand::Update("S1", 3, 4));
    assert_eq!(
        c.drawlist(1),
        Some(DrawlistState::Bound { reply: WORKER, scene: 1, camera: 2 })
    );
    assert_eq!(
        command(&mut c, RenderCommand::Complete(1)),
        Action::Submit { drawlist: 1, camera: 4 }
    );
    assert_eq!(c.drawlist(1), Some(DrawlistState::Prepared { scene: 1, camera: 2 }));
}

#[test]
fn a_drawlist_goes_out_with_the_snapshot_of_the_latest_update() {
    let mut c = Coordinator::new("empty", 2, 2, false, 0);
    command(&mut c, RenderCommand::Update("S0", 1, 2));
    assert_eq!(
        command(&mut c, RenderCommand::Waiting(WORKER)),
        dispatch(WORKER, 1, 1, 2, "S0")
    );
    command(&mut c, RenderCommand::Update("S1", 3, 4));
    assert_eq!(
        command(&mut c, RenderCommand::Waiting(OTHER)),
        dispatch(OTHER, 0, 3, 4, "S1")
    );
    assert_eq!(*c.db().last(), "S0");
}

#[test]
fn a_clock_that_runs_backwards_counts_as_no_time() {
    let mut c = Coordinator::new("empty", 1, 1, false, 500);
    command(&mut c, RenderCommand::Update("S0", 1, 1));
    command(&mut c, RenderCommand::Waiting(WORKER));
    command(&mut c, RenderCommand::Complete(0));
    assert_eq!(
        c.step(Event::Presented { drawlist: 0, now: 400 }),
        Ok(Action::Frame { elapsed: 0 })
    );
}

#[test]
fn announcing_while_holding_a_drawlist_is_a_violation() {
    let mut c = Coordinator::new("empty", 2, 2, false, 0);
    command(&mut c, RenderCommand::Update("S0", 1, 1));
    command(&mut c, RenderCommand::Waiting(WORKER));
    let again = c.step(Event::Command(RenderCommand::Waiting(WORKER)));
    assert_eq!(again, Err(ProtocolViolation::WorkerHoldsDrawlist));
    assert_eq!((c.free_count(), c.in_flight(), c.waiting_count()), (1, 1, 0));
}

#[test]
fn announcing_twice_is_a_violation() {
    let mut c = Coordinator::new("empty", 2, 2, false, 0);
    assert_eq!(command(&mut c, RenderCommand::Waiting(WORKER)), Action::Nothing);
    let again = c.step(Event::Command(RenderCommand::Waiting(WORKER)));
    assert_eq!(again, Err(ProtocolViolation::WorkerAlreadyWaiting));
    assert_eq!(c.waiting_count(), 1);
}

#[test]
fn more_workers_than_expected_is_a_violation() {
    let mut c = Coordinator::new("empty", 2, 1, false, 0);
    assert_eq!(command(&mut c, RenderCommand::Waiting(WORKER)), Action::Nothing);
    let extra = c.step(Event::Command(RenderCommand::Waiting(OTHER)));
    assert_eq!(extra, Err(ProtocolViolation::UnexpectedWorker));
    assert_eq!(c.waiting_count(), 1);

    let mut none = Coordinator::new("empty", 2, 0, false, 0);
    let any = none.step(Event::Command(RenderCommand::Waiting(WORKER)));
    assert_eq!(any, Err(ProtocolViolation::UnexpectedWorker));
}

#[test]
fn giving_back_a_drawlist_that_is_not_out_is_a_violation() {
    let mut c = Coordinator::new("empty", 2, 1, false, 0);
    assert_eq!(
        c.step(Event::Command(RenderCommand::Complete(0))),
        Err(ProtocolViolation::DrawlistNotBound)
    );
    assert_eq!(
        c.step(Event::Command(RenderCommand::Complete(2))),
        Err(ProtocolViolation::DrawlistNotBound)
    );
    command(&mut c, RenderCommand::Update("S0", 1, 1));
    command(&mut c, RenderCommand::Waiting(WORKER));
    command(&mut c, RenderCommand::Complete(1));
    assert_eq!(
        c.step(Event::Command(RenderCommand::Complete(1))),
        Err(ProtocolViolation::DrawlistNotBound)
    );
    assert_eq!((c.free_count(), c.in_flight(), c.pending()), (1, 0, 1));
}

#[test]
fn reporting_a_submission_that_was_not_owed_is_a_violation() {
    let mut c = Coordinator::new("empty", 2, 1, false, 0);
    assert_eq!(
        c.step(Event::Presented { drawlist: 0, now: 1 }),
        Err(ProtocolViolation::DrawlistNotPrepared)
    );
    assert_eq!(
        c.step(Event::Presented { drawlist: 9, now: 1 }),
        Err(ProtocolViolation::DrawlistNotPrepared)
    );
    command(&mut c, RenderCommand::Update("S0", 1, 1));
    command(&mut c, RenderCommand::Waiting(WORKER));
    assert_eq!(
        c.step(Event::Presented { drawlist: 1, now: 1 }),
        Err(ProtocolViolation::DrawlistNotPrepared)
    );
    assert_eq!(c.free_count(), 1);
}

#[test]
fn shutdown_stops_queued_workers_last_first() {
    let mut c = Coordinator::new("empty", 2, 3, false, 0);
    command(&mut c, RenderCommand::Waiting(1));
    command(&mut c, RenderCommand::Waiting(2));
    let drain = command(&mut c, RenderCommand::Finish(ACK));
    assert_eq!(drain, Action::Terminate { replies: vec![2, 1] });
    assert_eq!(c.phase(), Phase::Draining { ack: ACK });
    assert_eq!((c.workers(), c.waiting_count()), (1, 0));
    assert!(c.must_block());

    let stop = command(&mut c, RenderCommand::Waiting(3));
    assert_eq!(stop, Action::Shutdown { replies: vec![3], ack: Some(ACK) });
    assert!(c.is_terminated());
}

#[test]
fn shutdown_with_every_worker_queued_ends_at_once() {
    let mut c = Coordinator::new("empty", 2, 2, false, 0);
    command(&mut c, RenderCommand::Waiting(1));
    command(&mut c, RenderCommand::Waiting(2));
    let stop = command(&mut c, RenderCommand::Finish(ACK));
    assert_eq!(stop, Action::Shutdown { replies: vec![2, 1], ack: Some(ACK) });
    assert!(c.is_terminated());
    assert_eq!(c.workers(), 0);
}

#[test]
fn a_drawlist_given_back_during_shutdown_returns_to_the_pool() {
    let mut c = Coordinator::new("empty", 2, 1, false, 0);
    command(&mut c, RenderCommand::Update("S0", 1, 1));
    command(&mut c, RenderCommand::Waiting(WORKER));
    assert_eq!(
        command(&mut c, RenderCommand::Finish(ACK)),
        Action::Terminate { replies: vec![] }
    );
    assert_eq!((c.free_count(), c.in_flight()), (1, 1));

    let early = c.step(Event::Command(RenderCommand::Waiting(WORKER)));
    assert_eq!(early, Err(ProtocolViolation::WorkerHoldsDrawlist));
    assert_eq!(c.workers(), 1);

    assert_eq!(command(&mut c, RenderCommand::Complete(1)), Action::Nothing);
    assert_eq!((c.free_count(), c.in_flight(), c.pending()), (2, 0, 0));
    assert_eq!(
        command(&mut c, RenderCommand::Waiting(WORKER)),
        Action::Shutdown { replies: vec![WORKER], ack: Some(ACK) }
    );
}

#[test]
fn shutdown_drops_every_other_message() {
    let mut c = Coordinator::new("empty", 2, 1, true, 0);
    command(&mut c, RenderCommand::Update("S0", 1, 1));
    command(&mut c, RenderCommand::Finish(ACK));
    assert_eq!(command(&mut c, RenderCommand::Update("S1", 2, 2)), Action::Nothing);
    assert_eq!(*c.db().current(), "S0");
    assert_eq!((c.scene(), c.camera()), (1, 1));
    assert_eq!(command(&mut c, RenderCommand::Setup(5)), Action::Nothing);
    assert_eq!(command(&mut c, RenderCommand::Finish(100)), Action::Nothing);
    assert_eq!(c.step(Event::Idle), Ok(Action::Nothing));
    assert_eq!(c.phase(), Phase::Draining { ack: ACK });
    assert_eq!(
        command(&mut c, RenderCommand::Waiting(WORKER)),
        Action::Shutdown { replies: vec![WORKER], ack: Some(ACK) }
    );
}

#[test]
fn a_submission_owed_at_shutdown_is_still_taken() {
    let mut c = Coordinator::new("empty", 2, 1, false, 10);
    command(&mut c, RenderCommand::Update("S0", 1, 1));
    command(&mut c, RenderCommand::Waiting(WORKER));
    command(&mut c, RenderCommand::Complete(1));
    command(&mut c, RenderCommand::Finish(ACK));
    assert_eq!(
        c.step(Event::Presented { drawlist: 1, now: 30 }),
        Ok(Action::Frame { elapsed: 20 })
    );
    assert_eq!((c.free_count(), c.pending()), (2, 0));
}

#[test]
fn a_lost_channel_ends_the_loop_without_acknowledgement() {
    let mut c = Coordinator::new("empty", 2, 3, false, 0);
    command(&mut c, RenderCommand::Waiting(1));
    command(&mut c, RenderCommand::Waiting(2));
    let stop = c.step(Event::Disconnected).unwrap();
    assert_eq!(stop, Action::Shutdown { replies: vec![2, 1], ack: None });
    assert!(c.is_terminated());
    assert_eq!(c.workers(), 1);

    let mut d = Coordinator::new("empty", 2, 1, false, 0);
    command(&mut d, RenderCommand::Finish(ACK));
    let stop = d.step(Event::Disconnected).unwrap();
    assert_eq!(stop, Action::Shutdown { replies: vec![], ack: None });
    assert!(d.is_terminated());
}

#[test]
fn after_the_end_nothing_happens() {
    let mut c = Coordinator::new("empty", 2, 0, true, 0);
    command(&mut c, RenderCommand::Finish(ACK));
    assert!(c.is_terminated());
    assert_eq!(command(&mut c, RenderCommand::Update("S1", 2, 2)), Action::Nothing);
    assert_eq!(command(&mut c, RenderCommand::Waiting(WORKER)), Action::Nothing);
    assert_eq!(command(&mut c, RenderCommand::Complete(0)), Action::Nothing);
    assert_eq!(command(&mut c, RenderCommand::Setup(1)), Action::Nothing);
    assert_eq!(command(&mut c, RenderCommand::Finish(2)), Action::Nothing);
    assert_eq!(c.step(Event::Idle), Ok(Action::Nothing));
    assert_eq!(c.step(Event::Disconnected), Ok(Action::Nothing));
    assert_eq!(c.step(Event::Presented { drawlist: 0, now: 1 }), Ok(Action::Nothing));
    assert_eq!(*c.db().current(), "empty");
    assert_eq!(c.free_count(), 2);
}

#[test]
fn the_pool_is_conserved_through_a_run() {
    let mut c = Coordinator::new("empty", 2, 2, false, 0);
    let events = vec![
        Event::Command(RenderCommand::Waiting(1)),
        Event::Command(RenderCommand::Update("S0", 1, 1)),
        Event::Idle,
        Event::Command(RenderCommand::Waiting(2)),
        Event::Command(RenderCommand::Waiting(2)),
        Event::Command(RenderCommand::Complete(1)),
        Event::Presented { drawlist: 1, now: 5 },
        Event::Command(RenderCommand::Waiting(1)),
        Event::Command(RenderCommand::Complete(0)),
        Event::Command(RenderCommand::Finish(ACK)),
        Event::Presented { drawlist: 0, now: 9 },
        Event::Command(RenderCommand::Complete(1)),
        Event::Command(RenderCommand::Waiting(2)),
        Event::Command(RenderCommand::Waiting(1)),
    ];
    let mut workers = c.workers();
    let mut acknowledged = 0;
    for event in events {
        let result = c.step(event);
        if let Ok(Action::Shutdown { ack: Some(ack), .. }) = result {
            assert_eq!(ack, ACK);
            assert_eq!(c.workers(), 0);
            assert_eq!(c.in_flight(), 0);
            acknowledged += 1;
        }
        assert!(conserved(&c));
        assert_eq!(c.pool_size(), 2);
        assert!(c.workers() <= workers);
        workers = c.workers();
    }
    assert_eq!(acknowledged, 1);
    assert!(c.is_terminated());
    assert_eq!(c.free_count(), 2);
}

#[test]
fn load_reports_what_the_scene_still_needs() {
    let mut c = Coordinator::new("empty", 2, 1, false, 0);
    command(&mut c, RenderCommand::Update("S0", 1, 1));
    let plan = c.load(&vec![5, 6, 5]);
    assert_eq!(plan.vertex, vec![5, 6]);
    assert_eq!(
        plan.shaders,
        vec![
            ShaderSlot::RainbowNormal,
            ShaderSlot::RainbowTexture,
            ShaderSlot::Ovr,
            ShaderSlot::Flat
        ]
    );
    assert!(c.db().has_vertex(5) && c.db().has_vertex(6) && !c.db().has_vertex(7));

    command(&mut c, RenderCommand::Update("S1", 1, 1));
    let plan = c.load(&vec![6, 7]);
    assert_eq!(plan.vertex, vec![7]);
    assert_eq!(plan.shaders, vec![]);
    assert!(c.db().has_vertex(7));
    assert_eq!(*c.db().current(), "S1");
    assert_eq!(*c.db().last(), "S0");
}

#[test]
fn the_clock_times_the_frames() {
    let mut c = Coordinator::start("empty", 1, 1, false);
    command(&mut c, RenderCommand::Update("S0", 1, 1));
    command(&mut c, RenderCommand::Waiting(WORKER));
    command(&mut c, RenderCommand::Complete(0));
    let frame = c.presented_now(0).unwrap();
    assert!(matches!(frame, Action::Frame { .. }));
    assert_eq!(c.free_count(), 1);
    assert_eq!(c.presented_now(0), Err(ProtocolViolation::DrawlistNotPrepared));
}

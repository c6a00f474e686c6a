use std::collections::VecDeque;

use snowmew_render::command::RenderCommand;
use snowmew_render::coordinator::{Action, Coordinator};
use snowmew_render::drawlist::DrawlistState;
use snowmew_render::model::Event;
use snowmew_render::worker::{Worker, WorkerAction, WorkerEvent, WorkerPhase};

/// A small generator of numbers, the same on every run.
struct Dice(u64);

impl Dice {
    fn roll(&mut self, sides: usize) -> usize {
        self.0 = self.0.wrapping_mul(6364136223846793005).wrapping_add(1442695040888963407);
        ((self.0 >> 33) as usize) % sides
    }
}

#[derive(Clone, Copy, Debug)]
enum Move {
    Update,
    Finish,
    Arrive(usize),
    Poll,
    Present(usize),
    Start(usize),
    Take(usize),
    Prepared(usize),
}

/// The renderer in one thread: the coordinator, the workers, and for each
/// worker the messages it has sent and the replies it has not read yet.
struct Renderer {
    coordinator: Coordinator<u32>,
    workers: Vec<Worker>,
    sent: Vec<VecDeque<RenderCommand<u32>>>,
    inbox: Vec<VecDeque<WorkerEvent>>,
    clock: u64,
    updates: u32,
    acknowledged: usize,
}

const ACK: u64 = 4242;

impl Renderer {
    fn new(pool: usize, workers: usize) -> Renderer {
        Renderer {
            coordinator: Coordinator::new(0, pool, workers, true, 0),
            workers: (0..workers as u64).map(Worker::new).collect(),
            sent: (0..workers).map(|_| VecDeque::new()).collect(),
            inbox: (0..workers).map(|_| VecDeque::new()).collect(),
            clock: 0,
            updates: 0,
            acknowledged: 0,
        }
    }

    fn moves_of_workers(&self) -> Vec<Move> {
        let mut moves = Vec::new();
        for i in 0..self.workers.len() {
            if self.workers[i].phase() == WorkerPhase::Created {
                moves.push(Move::Start(i));
            }
            if matches!(self.workers[i].phase(), WorkerPhase::Preparing { .. }) {
                moves.push(Move::Prepared(i));
            }
            if !self.inbox[i].is_empty() {
                moves.push(Move::Take(i));
            }
            if !self.sent[i].is_empty() {
                moves.push(Move::Arrive(i));
            }
        }
        moves
    }

    fn other_moves(&self) -> Vec<Move> {
        let mut moves = vec![Move::Update];
        if !self.coordinator.must_block() {
            moves.push(Move::Poll);
        }
        for d in 0..self.coordinator.pool_size() {
            if matches!(self.coordinator.drawlist(d), Some(DrawlistState::Prepared { .. })) {
                moves.push(Move::Present(d));
            }
        }
        moves
    }

    fn coordinate(&mut self, event: Event<u32>) {
        let asked = match &event {
            Event::Command(RenderCommand::Setup(reply)) => Some(*reply),
            _ => None,
        };
        let action = self.coordinator.step(event).expect("the protocol is violated");
        match action {
            Action::Handoff { reply, granted } => {
                self.inbox[reply as usize].push_back(WorkerEvent::Resource { granted });
            }
            Action::Dispatch { reply, drawlist, scene, camera, snapshot } => {
                assert_eq!((scene, camera, snapshot), (self.updates, self.updates, self.updates));
                self.inbox[reply as usize].push_back(WorkerEvent::Reply(Some(drawlist)));
            }
            Action::Terminate { replies } => {
                for reply in replies {
                    self.inbox[reply as usize].push_back(WorkerEvent::Reply(None));
                }
            }
            Action::Shutdown { replies, ack } => {
                for reply in replies {
                    self.inbox[reply as usize].push_back(WorkerEvent::Reply(None));
                }
                assert_eq!(ack, Some(ACK));
                assert_eq!(self.coordinator.workers(), 0);
                assert_eq!(self.coordinator.in_flight(), 0);
                self.acknowledged += 1;
            }
            Action::Nothing => {
                if let Some(reply) = asked {
                    self.inbox[reply as usize].push_back(WorkerEvent::Resource { granted: false });
                }
            }
            Action::Reload | Action::Submit { .. } | Action::Frame { .. } => {}
        }
    }

    fn work(&mut self, i: usize, event: WorkerEvent) {
        let action = self.workers[i].step(event).expect("an event out of turn");
        if let WorkerAction::Exit = action {
            assert!(self.workers[i].is_stopped());
        }
        self.sent[i].extend(action.to_commands());
    }

    fn make(&mut self, m: Move) {
        match m {
            Move::Update => {
                self.updates += 1;
                let n = self.updates;
                self.coordinate(Event::Command(RenderCommand::Update(n, n, n)));
            }
            Move::Finish => self.coordinate(Event::Command(RenderCommand::Finish(ACK))),
            Move::Arrive(i) => {
                let command = self.sent[i].pop_front().unwrap();
                self.coordinate(Event::Command(command));
            }
            Move::Poll => self.coordinate(Event::Idle),
            Move::Present(d) => {
                self.clock += 7;
                let now = self.clock;
                self.coordinate(Event::Presented { drawlist: d, now });
            }
            Move::Start(i) => self.work(i, WorkerEvent::Start),
            Move::Take(i) => {
                let event = self.inbox[i].pop_front().unwrap();
                self.work(i, event);
            }
            Move::Prepared(i) => self.work(i, WorkerEvent::Prepared),
        }
        self.check();
    }

    /// Every drawlist is in one place, and the three counts add up.
    fn check(&self) {
        let c = &self.coordinator;
        assert_eq!(c.free_count() + c.in_flight() + c.pending(), c.pool_size());
        for d in 0..c.pool_size() {
            let mut places = 0;
            match c.drawlist(d) {
                Some(DrawlistState::Free) | Some(DrawlistState::Prepared { .. }) => places += 1,
                Some(DrawlistState::Bound { .. }) => {}
                None => panic!("a drawlist is missing"),
            }
            for i in 0..self.workers.len() {
                if self.workers[i].phase() == (WorkerPhase::Preparing { drawlist: d }) {
                    places += 1;
                }
                places += self.inbox[i]
                    .iter()
                    .filter(|e| **e == WorkerEvent::Reply(Some(d)))
                    .count();
                places += self.sent[i]
                    .iter()
                    .filter(|c| matches!(c, RenderCommand::Complete(x) if *x == d))
                    .count();
            }
            assert_eq!(places, 1, "drawlist {} is in {} places", d, places);
        }
    }
}

fn run(seed: u64, pool: usize, workers: usize, before_shutdown: usize) {
    let mut dice = Dice(seed);
    let mut r = Renderer::new(pool, workers);
    r.check();
    for _ in 0..before_shutdown {
        let mut moves = r.moves_of_workers();
        moves.extend(r.other_moves());
        let m = moves[dice.roll(moves.len())];
        r.make(m);
    }
    r.make(Move::Finish);
    // What remains for each worker is at most five moves; the frames that
    // are owed are presented on the side.
    let mut made = 0;
    while !r.coordinator.is_terminated() {
        let mut moves = r.moves_of_workers();
        assert!(!moves.is_empty(), "the shutdown stalls");
        let of_workers = moves.len();
        moves.extend(r.other_moves());
        let pick = dice.roll(moves.len());
        if pick < of_workers {
            made += 1;
            assert!(made <= 5 * workers, "the shutdown takes too long");
        }
        r.make(moves[pick]);
    }
    assert_eq!(r.acknowledged, 1);
    assert_eq!(r.coordinator.workers(), 0);
    assert_eq!(r.coordinator.in_flight(), 0);
    // Workers read the termination signal and stop.
    loop {
        let moves = r.moves_of_workers();
        if moves.is_empty() {
            break;
        }
        r.make(moves[dice.roll(moves.len())]);
    }
    assert!(r.workers.iter().all(|w| w.is_stopped()));
    assert_eq!(r.acknowledged, 1);
}

#[test]
fn any_interleaving_keeps_the_protocol() {
    for seed in 0..200 {
        run(seed, 2, 1, 40);
    }
}

#[test]
fn any_interleaving_with_more_workers_than_drawlists() {
    for seed in 0..200 {
        run(1000 + seed, 2, 5, 120);
    }
}

#[test]
fn any_interleaving_with_more_drawlists_than_workers() {
    for seed in 0..200 {
        run(5000 + seed, 4, 2, 80);
    }
}

#[test]
fn shutdown_right_at_the_start_ends() {
    for seed in 0..50 {
        run(9000 + seed, 2, 3, 0);
        run(9500 + seed, 2, 3, seed as usize % 7);
    }
}

#[test]
fn no_worker_and_no_drawlist_at_all() {
    run(1, 0, 0, 10);
    run(2, 0, 2, 30);
    run(3, 3, 0, 10);
}

//! A whole run as a mathematical object, and what holds of every run.
//!
//! The launcher, the runner and the jobs each take one event at a time. Here
//! they are put together: a world holds all of them, a move is one event at
//! one of them, and a run is any row of moves that the machines accept and
//! that tells them nothing but what happened. The children may produce their
//! output in any order and at any speed; that is the freedom in choosing the
//! moves. What is written to the sink is nevertheless one block per job, in
//! launch order.

use crate::job::{job_step, payload, JobEventView, JobState};
use crate::launch::{
    launch_directive, launch_step, LaunchDirectiveView, LaunchEventView, LauncherView,
};
use crate::runner::{
    runner_directive, runner_step, RunnerDirectiveView, RunnerEvent, RunnerView,
};
use vstd::prelude::*;

verus! {

/// The blocks in a row.
pub open spec fn concat(blocks: Seq<Seq<u8>>) -> Seq<u8>
    decreases blocks.len(),
{
    if blocks.len() == 0 {
        Seq::empty()
    } else {
        concat(blocks.drop_last()) + blocks.last()
    }
}

/// What there is once the runner has been started.
pub struct Running {
    pub runner: RunnerView,
    /// The state of each job, in launch order.
    pub jobs: Seq<JobState>,
    /// For each job, the bytes that its reads have returned so far, in the
    /// order in which the job took them in.
    pub heard: Seq<Seq<u8>>,
    /// Whether a failure signal has been sent.
    pub signalled: bool,
    /// The bytes handed to the sink so far.
    pub sink: Seq<u8>,
}

impl Running {
    /// The runner is fresh, every job waits, nothing is written.
    pub open spec fn fresh(jobs: nat) -> Running {
        Running {
            runner: RunnerView::fresh(jobs),
            jobs: Seq::new(jobs, |i: int| JobState::Waiting),
            heard: Seq::new(jobs, |i: int| Seq::empty()),
            signalled: false,
            sink: Seq::empty(),
        }
    }
}

/// The launcher and, once it has started one, the runner with its jobs.
pub struct World {
    pub launcher: LauncherView,
    pub running: Option<Running>,
}

impl World {
    /// Nothing has been spawned yet.
    pub open spec fn initial(commands: Seq<Seq<char>>) -> World {
        World { launcher: LauncherView::fresh(commands), running: None }
    }

    /// The bytes handed to the sink so far.
    pub open spec fn written(self) -> Seq<u8> {
        match self.running {
            Some(running) => running.sink,
            None => Seq::empty(),
        }
    }
}

/// One event at one machine.
pub enum Move {
    /// The launcher hears how a spawn went.
    Launcher(LaunchEventView),
    /// The driver starts the runner that the launcher handed out.
    Start,
    /// The runner hears of its jobs.
    Runner(RunnerEvent),
    /// The job with this index hears of its child, or of its release.
    Job { index: nat, event: JobEventView },
}

/// Whether the runner is told the truth: a job is reported done only when it
/// is the awaited one and has finished, with the outcome that it has, and a
/// failure signal arrives only after one was sent.
pub open spec fn truthful(running: Running, event: RunnerEvent) -> bool {
    match event {
        RunnerEvent::Launched => true,
        RunnerEvent::JobDone(outcome) => running.runner.turn < running.jobs.len()
            && running.jobs[running.runner.turn as int] == JobState::Finished(outcome),
        RunnerEvent::FailureSignal => running.signalled,
    }
}

/// The runner takes in a truthful event.
pub open spec fn runner_move(running: Running, event: RunnerEvent) -> Option<Running> {
    if truthful(running, event) {
        match runner_step(running.runner, event) {
            Some(runner) => Some(Running { runner, ..running }),
            None => None,
        }
    } else {
        None
    }
}

/// A job takes in an event. Its release is heard only while the runner
/// directs it. What the job hands back goes to the sink.
pub open spec fn job_move(running: Running, index: nat, event: JobEventView) -> Option<Running> {
    if index < running.jobs.len() && index < running.heard.len() && (event is Released
        ==> runner_directive(running.runner) == RunnerDirectiveView::Release(index)) {
        match job_step(running.jobs[index as int], event) {
            Some((state, bytes)) => Some(
                Running {
                    jobs: running.jobs.update(index as int, state),
                    heard: running.heard.update(
                        index as int,
                        running.heard[index as int] + payload(event),
                    ),
                    signalled: running.signalled || event is Signalled,
                    sink: running.sink + bytes,
                    ..running
                },
            ),
            None => None,
        }
    } else {
        None
    }
}

/// The world after a move, or `None` where the move cannot be made.
pub open spec fn step(world: World, m: Move) -> Option<World> {
    match (m, world.running) {
        (Move::Launcher(event), None) => match launch_step(world.launcher, event) {
            Some(launcher) => Some(World { launcher, ..world }),
            None => None,
        },
        (Move::Start, None) => match launch_directive(world.launcher) {
            LaunchDirectiveView::Start(runner) => Some(
                World { running: Some(Running::fresh(runner.jobs)), ..world },
            ),
            _ => None,
        },
        (Move::Runner(event), Some(running)) => match runner_move(running, event) {
            Some(next) => Some(World { running: Some(next), ..world }),
            None => None,
        },
        (Move::Job { index, event }, Some(running)) => match job_move(running, index, event) {
            Some(next) => Some(World { running: Some(next), ..world }),
            None => None,
        },
        _ => None,
    }
}

/// The world after a row of moves, or `None` where one of them cannot be made.
pub open spec fn run(world: World, moves: Seq<Move>) -> Option<World>
    decreases moves.len(),
{
    if moves.len() == 0 {
        Some(world)
    } else {
        match run(world, moves.drop_last()) {
            Some(before) => step(before, moves.last()),
            None => None,
        }
    }
}

} // verus!

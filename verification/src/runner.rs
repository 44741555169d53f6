//! The runner: it gives each job its turn, in launch order.
//!
//! All drain loops are launched together. Then one job at a time is released
//! and awaited; the next one is released only when the one before it has
//! completed. The first failure ends the run: no later job is released.

use crate::job::JobOutcome;
use vstd::prelude::*;

verus! {

/// How a run ended.
#[derive(Clone, Copy, PartialEq, Eq, Debug, Structural)]
pub enum RunEnd {
    /// Every job completed.
    Completed,
    /// A job failed; the jobs after it were never released.
    Stopped,
    /// The sink failed: the error belongs to the top level.
    Fatal,
}

/// The stage of a run.
#[derive(Clone, Copy, PartialEq, Eq, Debug, Structural)]
pub enum RunnerPhase {
    /// The drain loops are still to be launched.
    Launching,
    /// The job whose turn it is has been released and is awaited.
    Awaiting,
    /// The run is over.
    Ended(RunEnd),
}

/// What the driver reports back to the runner.
#[derive(Clone, Copy, PartialEq, Eq, Debug, Structural)]
pub enum RunnerEvent {
    /// Every drain loop has been launched, each with a release signal of its own.
    Launched,
    /// The drain loop of the awaited job has finished.
    JobDone(JobOutcome),
    /// A failure signal arrived on the shared channel.
    FailureSignal,
}

/// What the driver of the runner has to do next.
#[derive(Clone, Copy, PartialEq, Eq, Debug, Structural)]
pub enum RunnerDirective {
    /// Launch the drain loops of all jobs.
    Launch,
    /// Release the job with this index, then wait for whichever comes first:
    /// the end of its drain loop or a failure signal.
    Release(usize),
    /// Return: the run is over.
    Return(RunEnd),
}

/// A [`RunnerDirective`] as a mathematical value.
pub enum RunnerDirectiveView {
    Launch,
    Release(nat),
    Return(RunEnd),
}

impl View for RunnerDirective {
    type V = RunnerDirectiveView;

    open spec fn view(&self) -> RunnerDirectiveView {
        match *self {
            RunnerDirective::Launch => RunnerDirectiveView::Launch,
            RunnerDirective::Release(index) => RunnerDirectiveView::Release(index as nat),
            RunnerDirective::Return(end) => RunnerDirectiveView::Return(end),
        }
    }
}

/// A runner as a mathematical value.
///
/// `turn` counts the jobs that have completed. While a job is awaited it is
/// that job's index, and after a failure it stays the index of the job during
/// whose turn the run ended.
pub struct RunnerView {
    pub jobs: nat,
    pub turn: nat,
    pub phase: RunnerPhase,
}

impl RunnerView {
    /// A runner for `jobs` jobs, before anything is launched.
    pub open spec fn fresh(jobs: nat) -> RunnerView {
        RunnerView { jobs, turn: 0, phase: RunnerPhase::Launching }
    }

    /// The turn lies within the jobs, and it has come to their end exactly
    /// when the run has completed.
    pub open spec fn wf(self) -> bool {
        match self.phase {
            RunnerPhase::Launching => self.turn == 0,
            RunnerPhase::Awaiting => self.turn < self.jobs,
            RunnerPhase::Ended(RunEnd::Completed) => self.turn == self.jobs,
            RunnerPhase::Ended(_) => self.turn < self.jobs,
        }
    }

    /// The runner that awaits the job at `turn`, or has completed if there is
    /// no such job.
    pub open spec fn at_turn(self, turn: nat) -> RunnerView {
        if turn < self.jobs {
            RunnerView { turn, phase: RunnerPhase::Awaiting, ..self }
        } else {
            RunnerView { turn: self.jobs, phase: RunnerPhase::Ended(RunEnd::Completed), ..self }
        }
    }

    /// The runner after a run that ended during the current turn.
    pub open spec fn ended(self, end: RunEnd) -> RunnerView {
        RunnerView { phase: RunnerPhase::Ended(end), ..self }
    }
}

/// The directive that a runner gives.
pub open spec fn runner_directive(runner: RunnerView) -> RunnerDirectiveView {
    match runner.phase {
        RunnerPhase::Launching => RunnerDirectiveView::Launch,
        RunnerPhase::Awaiting => RunnerDirectiveView::Release(runner.turn),
        RunnerPhase::Ended(end) => RunnerDirectiveView::Return(end),
    }
}

/// One step of the runner, or `None` where the event cannot come of what the
/// runner directed.
///
/// Only a job that completed lets the next one have its turn. A job that
/// failed, or a failure signal from any job, stops the run where it is.
pub open spec fn runner_step(runner: RunnerView, event: RunnerEvent) -> Option<RunnerView> {
    match (runner.phase, event) {
        (RunnerPhase::Launching, RunnerEvent::Launched) => Some(runner.at_turn(0)),
        (RunnerPhase::Awaiting, RunnerEvent::JobDone(JobOutcome::Completed)) => Some(
            runner.at_turn(runner.turn + 1),
        ),
        (RunnerPhase::Awaiting, RunnerEvent::JobDone(JobOutcome::WaitFailed)) => Some(
            runner.ended(RunEnd::Stopped),
        ),
        (RunnerPhase::Awaiting, RunnerEvent::JobDone(JobOutcome::SinkFailed)) => Some(
            runner.ended(RunEnd::Fatal),
        ),
        (RunnerPhase::Awaiting, RunnerEvent::FailureSignal) => Some(runner.ended(RunEnd::Stopped)),
        _ => None,
    }
}

/// The runner's steps over a row of events, or `None` where one of them is
/// refused.
pub open spec fn runner_run(runner: RunnerView, events: Seq<RunnerEvent>) -> Option<RunnerView>
    decreases events.len(),
{
    if events.len() == 0 {
        Some(runner)
    } else {
        match runner_run(runner, events.drop_last()) {
            Some(before) => runner_step(before, events.last()),
            None => None,
        }
    }
}

/// How many jobs were reported as completed.
pub open spec fn completions_in(events: Seq<RunnerEvent>) -> nat
    decreases events.len(),
{
    if events.len() == 0 {
        0
    } else if events.last() == RunnerEvent::JobDone(JobOutcome::Completed) {
        completions_in(events.drop_last()) + 1
    } else {
        completions_in(events.drop_last())
    }
}

/// Whether the event tells of a failure.
pub open spec fn is_failure(event: RunnerEvent) -> bool {
    match event {
        RunnerEvent::Launched => false,
        RunnerEvent::JobDone(outcome) => outcome != JobOutcome::Completed,
        RunnerEvent::FailureSignal => true,
    }
}

/// Where a row of events is taken in, so is each row that it begins with.
proof fn lemma_runner_runs_through(runner: RunnerView, events: Seq<RunnerEvent>, upto: int)
    requires
        runner_run(runner, events) is Some,
        0 <= upto <= events.len(),
    ensures
        runner_run(runner, events.take(upto)) is Some,
    decreases events.len(),
{
    if upto == events.len() {
        assert(events.take(upto) == events);
    } else {
        lemma_runner_runs_through(runner, events.drop_last(), upto);
        assert(events.drop_last().take(upto) == events.take(upto));
    }
}

/// The turn is the number of jobs that have completed: the runner releases
/// the jobs one by one in launch order and passes no job that has not
/// completed. The run has completed exactly when every job has.
pub proof fn law_turn_counts_completed_jobs(jobs: nat, events: Seq<RunnerEvent>)
    requires
        runner_run(RunnerView::fresh(jobs), events) is Some,
    ensures
        ({
            let runner = runner_run(RunnerView::fresh(jobs), events).unwrap();
            &&& runner.wf()
            &&& runner.jobs == jobs
            &&& runner.turn == completions_in(events)
            &&& runner.turn <= jobs
            &&& runner.phase == RunnerPhase::Ended(RunEnd::Completed) <==> events.len() > 0
                && runner.turn == jobs
        }),
    decreases events.len(),
{
    if events.len() > 0 {
        law_turn_counts_completed_jobs(jobs, events.drop_last());
    }
}

/// The first failure ends the run: the event that tells of it is the last
/// one that the runner takes in, and no job is released after it.
pub proof fn law_failure_ends_the_run(jobs: nat, events: Seq<RunnerEvent>, at: int)
    requires
        runner_run(RunnerView::fresh(jobs), events) is Some,
        0 <= at < events.len(),
        is_failure(events[at]),
    ensures
        at == events.len() - 1,
        ({
            let runner = runner_run(RunnerView::fresh(jobs), events).unwrap();
            runner.phase == RunnerPhase::Ended(RunEnd::Stopped) || runner.phase
                == RunnerPhase::Ended(RunEnd::Fatal)
        }),
{
    let fresh = RunnerView::fresh(jobs);
    // The failure ends the run, and a run that has ended takes in no more.
    lemma_runner_runs_through(fresh, events, at + 1);
    assert(events.take(at + 1).drop_last() == events.take(at));
    assert(runner_run(fresh, events.take(at + 1)).unwrap().phase is Ended);
    if at + 1 < events.len() {
        lemma_runner_runs_through(fresh, events, at + 2);
        assert(events.take(at + 2).drop_last() == events.take(at + 1));
    } else {
        assert(events.take(at + 1) == events);
    }
}

/// The runner's state machine.
#[derive(Debug)]
pub struct Runner {
    jobs: usize,
    turn: usize,
    phase: RunnerPhase,
}

impl View for Runner {
    type V = RunnerView;

    closed spec fn view(&self) -> RunnerView {
        RunnerView { jobs: self.jobs as nat, turn: self.turn as nat, phase: self.phase }
    }
}

impl Runner {
    #[verifier::type_invariant]
    spec fn inv(self) -> bool {
        self@.wf()
    }

    /// A runner for that many jobs, counted in launch order from 0.
    pub fn new(jobs: usize) -> (runner: Runner)
        ensures
            runner@ == RunnerView::fresh(jobs as nat),
    {
        Runner { jobs, turn: 0, phase: RunnerPhase::Launching }
    }

    /// The number of jobs.
    pub fn jobs(&self) -> (jobs: usize)
        ensures
            jobs == self@.jobs,
    {
        self.jobs
    }

    /// The number of jobs that have completed.
    pub fn turn(&self) -> (turn: usize)
        ensures
            turn == self@.turn,
    {
        self.turn
    }

    /// The stage of the run.
    pub fn phase(&self) -> (phase: RunnerPhase)
        ensures
            phase == self@.phase,
    {
        self.phase
    }

    /// What the driver has to do next.
    pub fn directive(&self) -> (directive: RunnerDirective)
        ensures
            directive@ == runner_directive(self@),
    {
        match self.phase {
            RunnerPhase::Launching => RunnerDirective::Launch,
            RunnerPhase::Awaiting => RunnerDirective::Release(self.turn),
            RunnerPhase::Ended(end) => RunnerDirective::Return(end),
        }
    }

    /// Takes in what the driver reports; the result says whether the event
    /// was accepted.
    ///
    /// An event that cannot come of the current directive is refused and
    /// leaves the runner as it was.
    pub fn handle(&mut self, event: RunnerEvent) -> (accepted: bool)
        ensures
            final(self)@.wf(),
            match runner_step(old(self)@, event) {
                Some(next) => accepted && final(self)@ == next,
                None => !accepted && final(self)@ == old(self)@,
            },
    {
        proof {
            use_type_invariant(&*self);
        }
        match (self.phase, event) {
            (RunnerPhase::Launching, RunnerEvent::Launched) => {
                self.enter(0);
                true
            },
            (RunnerPhase::Awaiting, RunnerEvent::JobDone(JobOutcome::Completed)) => {
                let next: usize = self.turn + 1;
                self.enter(next);
                true
            },
            (RunnerPhase::Awaiting, RunnerEvent::JobDone(JobOutcome::WaitFailed)) => {
                self.phase = RunnerPhase::Ended(RunEnd::Stopped);
                true
            },
            (RunnerPhase::Awaiting, RunnerEvent::JobDone(JobOutcome::SinkFailed)) => {
                self.phase = RunnerPhase::Ended(RunEnd::Fatal);
                true
            },
            (RunnerPhase::Awaiting, RunnerEvent::FailureSignal) => {
                self.phase = RunnerPhase::Ended(RunEnd::Stopped);
                true
            },
            _ => false,
        }
    }

    /// Gives the turn to the job at `turn`, or ends the run if none is left.
    fn enter(&mut self, turn: usize)
        requires
            turn <= old(self)@.jobs,
        ensures
            final(self)@ == old(self)@.at_turn(turn as nat),
    {
        let jobs = self.jobs;
        if turn < jobs {
            *self = Runner { jobs, turn, phase: RunnerPhase::Awaiting };
        } else {
            *self = Runner { jobs, turn: jobs, phase: RunnerPhase::Ended(RunEnd::Completed) };
        }
    }
}

} // verus!

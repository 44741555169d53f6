//! The life of one job: a running child whose output is passed on to the sink.
//!
//! A job sleeps until its turn is released, then races reads on both output
//! streams against the child's exit, passes on what is left in the streams
//! once the child is gone, flushes, and reports how it ended.
//!
//! Until its release a job reads nothing and writes nothing: the child's
//! output waits in its pipes. That is what keeps the blocks of two jobs apart.
//!
//! A job fails when waiting for its child fails. An exit status, zero or not,
//! completes the job: the run goes on after a command that exits with an
//! error code.

use vstd::prelude::*;

verus! {

/// One of the two output streams of a child process.
#[derive(Clone, Copy, PartialEq, Eq, Debug, Structural)]
pub enum Stream {
    Stdout,
    Stderr,
}

/// What waiting for the child's exit gave.
#[derive(Clone, Copy, PartialEq, Eq, Debug, Structural)]
pub enum Exit {
    /// The wait returned an exit status; `success` is false for a non-zero code.
    Status { success: bool },
    /// The wait itself failed: the exit could not be observed.
    WaitFailed,
}

/// How a job ended.
#[derive(Clone, Copy, PartialEq, Eq, Debug, Structural)]
pub enum JobOutcome {
    /// The child's exit was observed and all of its output was passed on.
    Completed,
    /// Waiting for the child failed; the failure signal has been sent.
    WaitFailed,
    /// Writing to the sink failed, which ends the whole run.
    SinkFailed,
}

/// Where a job stands.
#[derive(Clone, Copy, PartialEq, Eq, Debug, Structural)]
pub enum JobState {
    /// Suspended until the release signal fires.
    Waiting,
    /// Racing reads on the open streams against the child's exit.
    Draining { stdout_open: bool, stderr_open: bool },
    /// The child is gone; what is left in `stream` is being collected.
    Collecting { stream: Stream, wait_failed: bool },
    /// Everything has been written; the sink is being flushed.
    Flushing { wait_failed: bool },
    /// The wait failed and the failure signal is still to be sent.
    Reporting,
    /// Nothing more will happen.
    Finished(JobOutcome),
}

/// What the driver of a job has to do next.
#[derive(Clone, Copy, PartialEq, Eq, Debug, Structural)]
pub enum JobDirective {
    /// Wait for the release signal.
    AwaitRelease,
    /// Wait for whichever comes first: a read on one of the named streams, or
    /// the child's exit.
    Poll { stdout: bool, stderr: bool },
    /// Read the stream to its end.
    Collect(Stream),
    /// Flush the sink.
    Flush,
    /// Send on the failure channel, once.
    SignalFailure,
    /// Return with this outcome.
    Finish(JobOutcome),
}

/// What the driver reports back to a job.
#[derive(PartialEq, Eq, Debug)]
pub enum JobEvent {
    /// The release signal fired.
    Released,
    /// A read on `stream` returned `bytes`; none means that the stream is closed.
    Chunk { stream: Stream, bytes: Vec<u8> },
    /// Waiting for the child's exit returned.
    Exited(Exit),
    /// `stream` was read to its end and held `bytes`.
    Residue { stream: Stream, bytes: Vec<u8> },
    /// The sink was flushed.
    Flushed,
    /// The failure signal was sent.
    Signalled,
    /// Writing to the sink, or flushing it, failed.
    SinkFailed,
}

/// A [`JobEvent`] as a mathematical value.
pub enum JobEventView {
    Released,
    Chunk { stream: Stream, bytes: Seq<u8> },
    Exited(Exit),
    Residue { stream: Stream, bytes: Seq<u8> },
    Flushed,
    Signalled,
    SinkFailed,
}

impl View for JobEvent {
    type V = JobEventView;

    open spec fn view(&self) -> JobEventView {
        match *self {
            JobEvent::Released => JobEventView::Released,
            JobEvent::Chunk { stream, bytes } => JobEventView::Chunk { stream, bytes: bytes@ },
            JobEvent::Exited(exit) => JobEventView::Exited(exit),
            JobEvent::Residue { stream, bytes } => JobEventView::Residue { stream, bytes: bytes@ },
            JobEvent::Flushed => JobEventView::Flushed,
            JobEvent::Signalled => JobEventView::Signalled,
            JobEvent::SinkFailed => JobEventView::SinkFailed,
        }
    }
}

/// The directive that a state gives: a job's driver never has to choose.
pub open spec fn directive_of(state: JobState) -> JobDirective {
    match state {
        JobState::Waiting => JobDirective::AwaitRelease,
        JobState::Draining { stdout_open, stderr_open } => JobDirective::Poll {
            stdout: stdout_open,
            stderr: stderr_open,
        },
        JobState::Collecting { stream, .. } => JobDirective::Collect(stream),
        JobState::Flushing { .. } => JobDirective::Flush,
        JobState::Reporting => JobDirective::SignalFailure,
        JobState::Finished(outcome) => JobDirective::Finish(outcome),
    }
}

/// Whether `event` can come of carrying out `directive`.
///
/// A read can only be reported for a stream that was polled, so a stream that
/// was seen closed is never heard of again. A failed sink can be reported
/// wherever the sink is in use.
pub open spec fn answers(directive: JobDirective, event: JobEventView) -> bool {
    match directive {
        JobDirective::AwaitRelease => event is Released,
        JobDirective::Poll { stdout, stderr } => match event {
            JobEventView::Chunk { stream: Stream::Stdout, .. } => stdout,
            JobEventView::Chunk { stream: Stream::Stderr, .. } => stderr,
            JobEventView::Exited(_) => true,
            JobEventView::SinkFailed => true,
            _ => false,
        },
        JobDirective::Collect(wanted) => match event {
            JobEventView::Residue { stream, .. } => stream == wanted,
            JobEventView::SinkFailed => true,
            _ => false,
        },
        JobDirective::Flush => event is Flushed || event is SinkFailed,
        JobDirective::SignalFailure => event is Signalled,
        JobDirective::Finish(_) => false,
    }
}

/// The bytes that an event carries from the child.
pub open spec fn payload(event: JobEventView) -> Seq<u8> {
    match event {
        JobEventView::Chunk { bytes, .. } => bytes,
        JobEventView::Residue { bytes, .. } => bytes,
        _ => Seq::empty(),
    }
}

/// The state that follows `state` once `event` is taken in.
///
/// Meant for events that answer the state's directive.
pub open spec fn state_after(state: JobState, event: JobEventView) -> JobState {
    match event {
        JobEventView::Released => JobState::Draining { stdout_open: true, stderr_open: true },
        JobEventView::Chunk { stream, bytes } => match state {
            JobState::Draining { stdout_open, stderr_open } if bytes.len() == 0 => match stream {
                Stream::Stdout => JobState::Draining { stdout_open: false, stderr_open },
                Stream::Stderr => JobState::Draining { stdout_open, stderr_open: false },
            },
            _ => state,
        },
        JobEventView::Exited(exit) => JobState::Collecting {
            stream: Stream::Stdout,
            wait_failed: exit is WaitFailed,
        },
        JobEventView::Residue { stream, .. } => match (state, stream) {
            (JobState::Collecting { wait_failed, .. }, Stream::Stdout) => JobState::Collecting {
                stream: Stream::Stderr,
                wait_failed,
            },
            (JobState::Collecting { wait_failed, .. }, Stream::Stderr) => JobState::Flushing {
                wait_failed,
            },
            _ => state,
        },
        JobEventView::Flushed => match state {
            JobState::Flushing { wait_failed: true } => JobState::Reporting,
            _ => JobState::Finished(JobOutcome::Completed),
        },
        JobEventView::Signalled => JobState::Finished(JobOutcome::WaitFailed),
        JobEventView::SinkFailed => JobState::Finished(JobOutcome::SinkFailed),
    }
}

/// One step of a job: the next state and the bytes to write to the sink, or
/// `None` where the event does not answer the state's directive.
///
/// Every byte that an accepted event carries is written, and nothing else.
pub open spec fn job_step(state: JobState, event: JobEventView) -> Option<(JobState, Seq<u8>)> {
    if answers(directive_of(state), event) {
        Some((state_after(state, event), payload(event)))
    } else {
        None
    }
}

/// A job's steps over a row of events: where it ends and all that it hands
/// to the sink, or `None` where one of the events is refused.
pub open spec fn job_run(state: JobState, events: Seq<JobEventView>) -> Option<
    (JobState, Seq<u8>),
>
    decreases events.len(),
{
    if events.len() == 0 {
        Some((state, Seq::empty()))
    } else {
        match job_run(state, events.drop_last()) {
            Some((before, written)) => match job_step(before, events.last()) {
                Some((after, bytes)) => Some((after, written + bytes)),
                None => None,
            },
            None => None,
        }
    }
}

/// All the bytes that the events carry, in the order of the events.
pub open spec fn heard_in(events: Seq<JobEventView>) -> Seq<u8>
    decreases events.len(),
{
    if events.len() == 0 {
        Seq::empty()
    } else {
        heard_in(events.drop_last()) + payload(events.last())
    }
}

/// How often the failure signal was sent.
pub open spec fn signals_in(events: Seq<JobEventView>) -> nat
    decreases events.len(),
{
    if events.len() == 0 {
        0
    } else if events.last() is Signalled {
        signals_in(events.drop_last()) + 1
    } else {
        signals_in(events.drop_last())
    }
}

/// A job writes what it hears, all of it, once, and in the order in which
/// it heard it.
pub proof fn law_job_passes_on_what_it_hears(state: JobState, events: Seq<JobEventView>)
    requires
        job_run(state, events) is Some,
    ensures
        job_run(state, events).unwrap().1 == heard_in(events),
    decreases events.len(),
{
    if events.len() > 0 {
        law_job_passes_on_what_it_hears(state, events.drop_last());
    }
}

/// A job does nothing before its release: the first event that it takes in
/// is the release, and it is released once.
pub proof fn law_job_waits_for_release(events: Seq<JobEventView>)
    requires
        job_run(JobState::Waiting, events) is Some,
        events.len() > 0,
    ensures
        events[0] is Released,
        forall|i: int| 0 < i < events.len() ==> !(#[trigger] events[i] is Released),
    decreases events.len(),
{
    if events.len() > 1 {
        law_job_waits_for_release(events.drop_last());
        lemma_released_job_has_left_waiting(events.drop_last());
        assert forall|i: int| 0 < i < events.len() implies !(#[trigger] events[i] is Released) by {
            if i < events.len() - 1 {
                assert(events.drop_last()[i] == events[i]);
            }
        }
    } else {
        assert(job_run(JobState::Waiting, events.drop_last()).unwrap().0 == JobState::Waiting);
    }
}

/// A job that has taken in an event waits no longer.
proof fn lemma_released_job_has_left_waiting(events: Seq<JobEventView>)
    requires
        job_run(JobState::Waiting, events) is Some,
        events.len() > 0,
    ensures
        job_run(JobState::Waiting, events).unwrap().0 != JobState::Waiting,
    decreases events.len(),
{
    if events.len() > 1 {
        lemma_released_job_has_left_waiting(events.drop_last());
    }
}

/// Whether the state tells of a wait that failed.
pub open spec fn knows_wait_failed(state: JobState) -> bool {
    match state {
        JobState::Collecting { wait_failed, .. } => wait_failed,
        JobState::Flushing { wait_failed } => wait_failed,
        JobState::Reporting => true,
        JobState::Finished(JobOutcome::WaitFailed) => true,
        _ => false,
    }
}

/// A job sends the failure signal at most once. It has sent it exactly when
/// it has finished with a failed wait, and a job that was never told of a
/// failed wait sends none: an exit status, zero or not, is no failure.
pub proof fn law_job_signals_failure_once(events: Seq<JobEventView>)
    requires
        job_run(JobState::Waiting, events) is Some,
    ensures
        signals_in(events) <= 1,
        signals_in(events) == 1 <==> job_run(JobState::Waiting, events).unwrap().0
            == JobState::Finished(JobOutcome::WaitFailed),
        knows_wait_failed(job_run(JobState::Waiting, events).unwrap().0) ==> events.contains(
            JobEventView::Exited(Exit::WaitFailed),
        ),
    decreases events.len(),
{
    if events.len() > 0 {
        let shorter = events.drop_last();
        law_job_signals_failure_once(shorter);
        let told = JobEventView::Exited(Exit::WaitFailed);
        if shorter.contains(told) {
            let i = choose|i: int| 0 <= i < shorter.len() && shorter[i] == told;
            assert(events[i] == told);
        }
    }
}

/// Whether the state has the driver poll `stream`.
pub open spec fn polls(state: JobState, stream: Stream) -> bool {
    match (directive_of(state), stream) {
        (JobDirective::Poll { stdout, .. }, Stream::Stdout) => stdout,
        (JobDirective::Poll { stderr, .. }, Stream::Stderr) => stderr,
        _ => false,
    }
}

/// Where a row of events is taken in, so is each row that it begins with.
proof fn lemma_job_runs_through(state: JobState, events: Seq<JobEventView>, upto: int)
    requires
        job_run(state, events) is Some,
        0 <= upto <= events.len(),
    ensures
        job_run(state, events.take(upto)) is Some,
    decreases events.len(),
{
    if upto == events.len() {
        assert(events.take(upto) == events);
    } else {
        lemma_job_runs_through(state, events.drop_last(), upto);
        assert(events.drop_last().take(upto) == events.take(upto));
    }
}

/// After a read that returned nothing the job is neither waiting nor polling
/// that stream.
proof fn lemma_closed_stream_is_not_polled(
    state: JobState,
    events: Seq<JobEventView>,
    closed_at: int,
    upto: int,
    stream: Stream,
)
    requires
        job_run(state, events) is Some,
        0 <= closed_at < upto <= events.len(),
        events[closed_at] == (JobEventView::Chunk { stream, bytes: Seq::empty() }),
    ensures
        job_run(state, events.take(upto)) is Some,
        !polls(job_run(state, events.take(upto)).unwrap().0, stream),
        job_run(state, events.take(upto)).unwrap().0 != JobState::Waiting,
    decreases upto,
{
    lemma_job_runs_through(state, events, upto);
    lemma_job_runs_through(state, events, upto - 1);
    assert(events.take(upto).drop_last() == events.take(upto - 1));
    if upto > closed_at + 1 {
        lemma_closed_stream_is_not_polled(state, events, closed_at, upto - 1, stream);
    }
}

/// A read that returns nothing closes its stream: from then on the driver is
/// never told to poll that stream, and the job takes in no further read on it.
pub proof fn law_closed_stream_stays_closed(
    state: JobState,
    events: Seq<JobEventView>,
    closed_at: int,
    later: int,
    stream: Stream,
)
    requires
        job_run(state, events) is Some,
        0 <= closed_at < later <= events.len(),
        events[closed_at] == (JobEventView::Chunk { stream, bytes: Seq::empty() }),
    ensures
        job_run(state, events.take(later)) is Some,
        !polls(job_run(state, events.take(later)).unwrap().0, stream),
        later < events.len() ==> !(events[later] matches JobEventView::Chunk { stream: read, .. }
            && read == stream),
{
    lemma_closed_stream_is_not_polled(state, events, closed_at, later, stream);
    if later < events.len() {
        lemma_job_runs_through(state, events, later + 1);
        assert(events.take(later + 1).drop_last() == events.take(later));
    }
}

/// One job's state machine.
#[derive(Debug)]
pub struct Job {
    state: JobState,
}

impl View for Job {
    type V = JobState;

    closed spec fn view(&self) -> JobState {
        self.state
    }
}

impl Job {
    /// A job whose child has just been spawned: it waits for its turn.
    pub fn new() -> (job: Job)
        ensures
            job@ == JobState::Waiting,
    {
        Job { state: JobState::Waiting }
    }

    /// Where the job stands.
    pub fn state(&self) -> (state: JobState)
        ensures
            state == self@,
    {
        self.state
    }

    /// What the driver has to do next.
    pub fn directive(&self) -> (directive: JobDirective)
        ensures
            directive == directive_of(self@),
    {
        match self.state {
            JobState::Waiting => JobDirective::AwaitRelease,
            JobState::Draining { stdout_open, stderr_open } => JobDirective::Poll {
                stdout: stdout_open,
                stderr: stderr_open,
            },
            JobState::Collecting { stream, .. } => JobDirective::Collect(stream),
            JobState::Flushing { .. } => JobDirective::Flush,
            JobState::Reporting => JobDirective::SignalFailure,
            JobState::Finished(outcome) => JobDirective::Finish(outcome),
        }
    }

    /// How the job ended, once it has.
    pub fn outcome(&self) -> (outcome: Option<JobOutcome>)
        ensures
            outcome == (match self@ {
                JobState::Finished(o) => Some(o),
                _ => None,
            }),
    {
        match self.state {
            JobState::Finished(o) => Some(o),
            _ => None,
        }
    }

    /// Takes in what the driver reports and hands back the bytes that the
    /// driver has to write to the sink now.
    ///
    /// An event that does not answer the current directive is refused: the
    /// result is `None` and the job stays as it was.
    pub fn handle(&mut self, event: JobEvent) -> (written: Option<Vec<u8>>)
        ensures
            match job_step(old(self)@, event@) {
                Some((state, bytes)) => final(self)@ == state && written.is_some()
                    && written.unwrap()@ == bytes,
                None => final(self)@ == old(self)@ && written.is_none(),
            },
    {
        match (self.state, event) {
            (JobState::Waiting, JobEvent::Released) => {
                self.state = JobState::Draining { stdout_open: true, stderr_open: true };
                Some(Vec::new())
            },
            (JobState::Draining { stdout_open, stderr_open }, JobEvent::Chunk { stream, bytes }) => {
                let open = match stream {
                    Stream::Stdout => stdout_open,
                    Stream::Stderr => stderr_open,
                };
                if !open {
                    return None;
                }
                if bytes.len() == 0 {
                    self.state = match stream {
                        Stream::Stdout => JobState::Draining { stdout_open: false, stderr_open },
                        Stream::Stderr => JobState::Draining { stdout_open, stderr_open: false },
                    };
                }
                Some(bytes)
            },
            (JobState::Draining { .. }, JobEvent::Exited(exit)) => {
                let wait_failed = match exit {
                    Exit::WaitFailed => true,
                    Exit::Status { .. } => false,
                };
                self.state = JobState::Collecting { stream: Stream::Stdout, wait_failed };
                Some(Vec::new())
            },
            (
                JobState::Collecting { stream: Stream::Stdout, wait_failed },
                JobEvent::Residue { stream: Stream::Stdout, bytes },
            ) => {
                self.state = JobState::Collecting { stream: Stream::Stderr, wait_failed };
                Some(bytes)
            },
            (
                JobState::Collecting { stream: Stream::Stderr, wait_failed },
                JobEvent::Residue { stream: Stream::Stderr, bytes },
            ) => {
                self.state = JobState::Flushing { wait_failed };
                Some(bytes)
            },
            (JobState::Flushing { wait_failed }, JobEvent::Flushed) => {
                self.state = if wait_failed {
                    JobState::Reporting
                } else {
                    JobState::Finished(JobOutcome::Completed)
                };
                Some(Vec::new())
            },
            (JobState::Reporting, JobEvent::Signalled) => {
                self.state = JobState::Finished(JobOutcome::WaitFailed);
                Some(Vec::new())
            },
            (JobState::Draining { .. }, JobEvent::SinkFailed)
            | (JobState::Collecting { .. }, JobEvent::SinkFailed)
            | (JobState::Flushing { .. }, JobEvent::SinkFailed) => {
                self.state = JobState::Finished(JobOutcome::SinkFailed);
                Some(Vec::new())
            },
            _ => None,
        }
    }
}

} // verus!

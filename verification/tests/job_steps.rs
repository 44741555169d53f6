use inorder::job::{JobDirective, Exit, Job, JobEvent, JobOutcome, JobState, Stream};

fn chunk(stream: Stream, bytes: &[u8]) -> JobEvent {
    JobEvent::Chunk { stream, bytes: bytes.to_vec() }
}

fn residue(stream: Stream, bytes: &[u8]) -> JobEvent {
    JobEvent::Residue { stream, bytes: bytes.to_vec() }
}

fn released() -> Job {
    let mut job = Job::new();
    assert_eq!(job.handle(JobEvent::Released), Some(vec![]));
    job
}

fn exited(exit: Exit) -> Job {
    let mut job = released();
    assert_eq!(job.handle(JobEvent::Exited(exit)), Some(vec![]));
    job
}

fn flushing(exit: Exit) -> Job {
    let mut job = exited(exit);
    assert_eq!(job.handle(residue(Stream::Stdout, b"")), Some(vec![]));
    assert_eq!(job.handle(residue(Stream::Stderr, b"")), Some(vec![]));
    job
}

#[test]
fn a_new_job_waits_for_its_release() {
    let job = Job::new();
    assert_eq!(job.state(), JobState::Waiting);
    assert_eq!(job.directive(), JobDirective::AwaitRelease);
    assert_eq!(job.outcome(), None);
}

#[test]
fn a_waiting_job_takes_in_nothing_but_its_release() {
    let events = || {
        vec![
            chunk(Stream::Stdout, b"early"),
            chunk(Stream::Stderr, b"early"),
            chunk(Stream::Stdout, b""),
            JobEvent::Exited(Exit::Status { success: true }),
            JobEvent::Exited(Exit::WaitFailed),
            residue(Stream::Stdout, b"x"),
            residue(Stream::Stderr, b"x"),
            JobEvent::Flushed,
            JobEvent::Signalled,
            JobEvent::SinkFailed,
        ]
    };
    for event in events() {
        let mut job = Job::new();
        assert_eq!(job.handle(event), None);
        assert_eq!(job.state(), JobState::Waiting);
    }
}

#[test]
fn release_opens_both_streams() {
    let job = released();
    assert_eq!(job.state(), JobState::Draining { stdout_open: true, stderr_open: true });
    assert_eq!(job.directive(), JobDirective::Poll { stdout: true, stderr: true });
}

#[test]
fn a_second_release_is_refused() {
    let mut job = released();
    assert_eq!(job.handle(JobEvent::Released), None);
    assert_eq!(job.state(), JobState::Draining { stdout_open: true, stderr_open: true });
}

#[test]
fn a_chunk_is_written_as_it_was_read() {
    let mut job = released();
    assert_eq!(job.handle(chunk(Stream::Stdout, b"A\n")), Some(b"A\n".to_vec()));
    assert_eq!(job.handle(chunk(Stream::Stderr, b"oops")), Some(b"oops".to_vec()));
    assert_eq!(job.handle(chunk(Stream::Stdout, &[0, 255, 10])), Some(vec![0, 255, 10]));
    assert_eq!(job.state(), JobState::Draining { stdout_open: true, stderr_open: true });
}

#[test]
fn an_empty_read_closes_stdout() {
    let mut job = released();
    assert_eq!(job.handle(chunk(Stream::Stdout, b"")), Some(vec![]));
    assert_eq!(job.state(), JobState::Draining { stdout_open: false, stderr_open: true });
    assert_eq!(job.directive(), JobDirective::Poll { stdout: false, stderr: true });
}

#[test]
fn an_empty_read_closes_stderr() {
    let mut job = released();
    assert_eq!(job.handle(chunk(Stream::Stderr, b"")), Some(vec![]));
    assert_eq!(job.state(), JobState::Draining { stdout_open: true, stderr_open: false });
    assert_eq!(job.directive(), JobDirective::Poll { stdout: true, stderr: false });
}

#[test]
fn a_closed_stream_is_not_read_again() {
    let mut job = released();
    assert_eq!(job.handle(chunk(Stream::Stdout, b"")), Some(vec![]));
    assert_eq!(job.handle(chunk(Stream::Stdout, b"late")), None);
    assert_eq!(job.handle(chunk(Stream::Stdout, b"")), None);
    assert_eq!(job.handle(chunk(Stream::Stderr, b"still")), Some(b"still".to_vec()));
    assert_eq!(job.handle(chunk(Stream::Stderr, b"")), Some(vec![]));
    assert_eq!(job.handle(chunk(Stream::Stderr, b"late")), None);
    assert_eq!(job.directive(), JobDirective::Poll { stdout: false, stderr: false });
    assert_eq!(job.handle(JobEvent::Exited(Exit::Status { success: true })), Some(vec![]));
}

#[test]
fn exit_starts_the_collecting_with_stdout() {
    let job = exited(Exit::Status { success: true });
    assert_eq!(job.state(), JobState::Collecting { stream: Stream::Stdout, wait_failed: false });
    assert_eq!(job.directive(), JobDirective::Collect(Stream::Stdout));
}

#[test]
fn what_is_left_is_written_stdout_first() {
    let mut job = exited(Exit::Status { success: true });
    assert_eq!(job.handle(residue(Stream::Stderr, b"E")), None);
    assert_eq!(job.handle(residue(Stream::Stdout, b"rest of out")), Some(b"rest of out".to_vec()));
    assert_eq!(job.directive(), JobDirective::Collect(Stream::Stderr));
    assert_eq!(job.handle(residue(Stream::Stdout, b"again")), None);
    assert_eq!(job.handle(residue(Stream::Stderr, b"rest of err")), Some(b"rest of err".to_vec()));
    assert_eq!(job.state(), JobState::Flushing { wait_failed: false });
    assert_eq!(job.directive(), JobDirective::Flush);
}

#[test]
fn no_chunk_is_taken_in_after_the_exit() {
    let mut job = exited(Exit::Status { success: true });
    assert_eq!(job.handle(chunk(Stream::Stdout, b"x")), None);
    assert_eq!(job.handle(JobEvent::Exited(Exit::Status { success: true })), None);
}

#[test]
fn a_clean_exit_finishes_without_a_signal() {
    let mut job = flushing(Exit::Status { success: true });
    assert_eq!(job.handle(JobEvent::Signalled), None);
    assert_eq!(job.handle(JobEvent::Flushed), Some(vec![]));
    assert_eq!(job.state(), JobState::Finished(JobOutcome::Completed));
    assert_eq!(job.directive(), JobDirective::Finish(JobOutcome::Completed));
    assert_eq!(job.outcome(), Some(JobOutcome::Completed));
}

#[test]
fn a_non_zero_status_is_no_failure() {
    let mut job = flushing(Exit::Status { success: false });
    assert_eq!(job.state(), JobState::Flushing { wait_failed: false });
    assert_eq!(job.handle(JobEvent::Flushed), Some(vec![]));
    assert_eq!(job.outcome(), Some(JobOutcome::Completed));
}

#[test]
fn a_failed_wait_is_signalled_once() {
    let mut job = flushing(Exit::WaitFailed);
    assert_eq!(job.state(), JobState::Flushing { wait_failed: true });
    assert_eq!(job.handle(JobEvent::Flushed), Some(vec![]));
    assert_eq!(job.state(), JobState::Reporting);
    assert_eq!(job.directive(), JobDirective::SignalFailure);
    assert_eq!(job.outcome(), None);
    assert_eq!(job.handle(JobEvent::Signalled), Some(vec![]));
    assert_eq!(job.directive(), JobDirective::Finish(JobOutcome::WaitFailed));
    assert_eq!(job.handle(JobEvent::Signalled), None);
    assert_eq!(job.outcome(), Some(JobOutcome::WaitFailed));
}

#[test]
fn a_failed_wait_still_writes_what_is_left() {
    let mut job = exited(Exit::WaitFailed);
    assert_eq!(job.handle(residue(Stream::Stdout, b"last words")), Some(b"last words".to_vec()));
    assert_eq!(job.handle(residue(Stream::Stderr, b"!")), Some(b"!".to_vec()));
    assert_eq!(job.directive(), JobDirective::Flush);
}

#[test]
fn a_failed_sink_ends_the_job_while_draining() {
    let mut job = released();
    assert_eq!(job.handle(chunk(Stream::Stdout, b"lost")), Some(b"lost".to_vec()));
    assert_eq!(job.handle(JobEvent::SinkFailed), Some(vec![]));
    assert_eq!(job.state(), JobState::Finished(JobOutcome::SinkFailed));
    assert_eq!(job.directive(), JobDirective::Finish(JobOutcome::SinkFailed));
}

#[test]
fn a_failed_sink_ends_the_job_while_collecting() {
    let mut job = exited(Exit::WaitFailed);
    assert_eq!(job.handle(residue(Stream::Stdout, b"lost")), Some(b"lost".to_vec()));
    assert_eq!(job.handle(JobEvent::SinkFailed), Some(vec![]));
    assert_eq!(job.outcome(), Some(JobOutcome::SinkFailed));
}

#[test]
fn a_failed_flush_ends_the_job() {
    let mut job = flushing(Exit::Status { success: true });
    assert_eq!(job.handle(JobEvent::SinkFailed), Some(vec![]));
    assert_eq!(job.outcome(), Some(JobOutcome::SinkFailed));
}

#[test]
fn a_failed_sink_is_refused_where_the_sink_is_not_in_use() {
    let mut job = Job::new();
    assert_eq!(job.handle(JobEvent::SinkFailed), None);
    let mut job = flushing(Exit::WaitFailed);
    assert_eq!(job.handle(JobEvent::Flushed), Some(vec![]));
    assert_eq!(job.handle(JobEvent::SinkFailed), None);
    assert_eq!(job.state(), JobState::Reporting);
}

#[test]
fn a_finished_job_takes_in_nothing() {
    let events = || {
        vec![
            JobEvent::Released,
            chunk(Stream::Stdout, b"x"),
            JobEvent::Exited(Exit::Status { success: true }),
            residue(Stream::Stdout, b"x"),
            residue(Stream::Stderr, b"x"),
            JobEvent::Flushed,
            JobEvent::Signalled,
            JobEvent::SinkFailed,
        ]
    };
    for event in events() {
        let mut job = flushing(Exit::Status { success: true });
        assert_eq!(job.handle(JobEvent::Flushed), Some(vec![]));
        assert_eq!(job.handle(event), None);
        assert_eq!(job.state(), JobState::Finished(JobOutcome::Completed));
    }
}

#[test]
fn a_job_writes_all_it_hears_in_the_order_heard() {
    let mut job = Job::new();
    let mut written = Vec::new();
    let events = vec![
        JobEvent::Released,
        chunk(Stream::Stdout, b"one "),
        chunk(Stream::Stderr, b"two "),
        chunk(Stream::Stdout, b"three "),
        chunk(Stream::Stderr, b""),
        chunk(Stream::Stdout, b"four "),
        JobEvent::Exited(Exit::Status { success: true }),
        residue(Stream::Stdout, b"five "),
        residue(Stream::Stderr, b"six"),
        JobEvent::Flushed,
    ];
    for event in events {
        written.extend(job.handle(event).expect("the event answers the directive"));
    }
    assert_eq!(written, b"one two three four five six".to_vec());
    assert_eq!(job.outcome(), Some(JobOutcome::Completed));
}

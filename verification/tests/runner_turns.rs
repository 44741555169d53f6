use inorder::job::JobOutcome;
use inorder::runner::{RunEnd, Runner, RunnerDirective, RunnerEvent, RunnerPhase};

fn awaiting(jobs: usize) -> Runner {
    let mut runner = Runner::new(jobs);
    assert!(runner.handle(RunnerEvent::Launched));
    runner
}

#[test]
fn a_new_runner_launches_first() {
    let runner = Runner::new(3);
    assert_eq!(runner.jobs(), 3);
    assert_eq!(runner.turn(), 0);
    assert_eq!(runner.phase(), RunnerPhase::Launching);
    assert_eq!(runner.directive(), RunnerDirective::Launch);
}

#[test]
fn nothing_but_the_launch_is_taken_in_before_it() {
    for event in [
        RunnerEvent::JobDone(JobOutcome::Completed),
        RunnerEvent::JobDone(JobOutcome::WaitFailed),
        RunnerEvent::JobDone(JobOutcome::SinkFailed),
        RunnerEvent::FailureSignal,
    ] {
        let mut runner = Runner::new(2);
        assert!(!runner.handle(event));
        assert_eq!(runner.phase(), RunnerPhase::Launching);
        assert_eq!(runner.turn(), 0);
    }
}

#[test]
fn the_first_job_is_released_after_the_launch() {
    let runner = awaiting(2);
    assert_eq!(runner.phase(), RunnerPhase::Awaiting);
    assert_eq!(runner.directive(), RunnerDirective::Release(0));
}

#[test]
fn a_second_launch_is_refused() {
    let mut runner = awaiting(2);
    assert!(!runner.handle(RunnerEvent::Launched));
    assert_eq!(runner.directive(), RunnerDirective::Release(0));
}

#[test]
fn jobs_are_released_one_by_one_in_launch_order() {
    let mut runner = awaiting(4);
    for index in 0..4 {
        assert_eq!(runner.directive(), RunnerDirective::Release(index));
        assert_eq!(runner.turn(), index);
        assert!(runner.handle(RunnerEvent::JobDone(JobOutcome::Completed)));
    }
    assert_eq!(runner.turn(), 4);
    assert_eq!(runner.phase(), RunnerPhase::Ended(RunEnd::Completed));
    assert_eq!(runner.directive(), RunnerDirective::Return(RunEnd::Completed));
}

#[test]
fn a_run_without_jobs_completes_at_once() {
    let runner = awaiting(0);
    assert_eq!(runner.turn(), 0);
    assert_eq!(runner.directive(), RunnerDirective::Return(RunEnd::Completed));
}

#[test]
fn a_single_job_completes_the_run() {
    let mut runner = awaiting(1);
    assert!(runner.handle(RunnerEvent::JobDone(JobOutcome::Completed)));
    assert_eq!(runner.directive(), RunnerDirective::Return(RunEnd::Completed));
}

#[test]
fn a_failure_signal_stops_the_run_where_it_is() {
    let mut runner = awaiting(3);
    assert!(runner.handle(RunnerEvent::JobDone(JobOutcome::Completed)));
    assert!(runner.handle(RunnerEvent::FailureSignal));
    assert_eq!(runner.turn(), 1);
    assert_eq!(runner.phase(), RunnerPhase::Ended(RunEnd::Stopped));
    assert_eq!(runner.directive(), RunnerDirective::Return(RunEnd::Stopped));
}

#[test]
fn a_job_that_ends_with_a_failed_wait_stops_the_run() {
    let mut runner = awaiting(3);
    assert!(runner.handle(RunnerEvent::JobDone(JobOutcome::WaitFailed)));
    assert_eq!(runner.turn(), 0);
    assert_eq!(runner.directive(), RunnerDirective::Return(RunEnd::Stopped));
}

#[test]
fn a_failure_at_the_last_job_does_not_complete_the_run() {
    let mut runner = awaiting(2);
    assert!(runner.handle(RunnerEvent::JobDone(JobOutcome::Completed)));
    assert!(runner.handle(RunnerEvent::JobDone(JobOutcome::WaitFailed)));
    assert_eq!(runner.turn(), 1);
    assert_eq!(runner.directive(), RunnerDirective::Return(RunEnd::Stopped));
}

#[test]
fn a_failed_sink_is_fatal() {
    let mut runner = awaiting(3);
    assert!(runner.handle(RunnerEvent::JobDone(JobOutcome::SinkFailed)));
    assert_eq!(runner.turn(), 0);
    assert_eq!(runner.phase(), RunnerPhase::Ended(RunEnd::Fatal));
    assert_eq!(runner.directive(), RunnerDirective::Return(RunEnd::Fatal));
}

#[test]
fn nothing_is_taken_in_after_the_end() {
    let ends = [
        RunnerEvent::JobDone(JobOutcome::Completed),
        RunnerEvent::JobDone(JobOutcome::WaitFailed),
        RunnerEvent::JobDone(JobOutcome::SinkFailed),
        RunnerEvent::FailureSignal,
    ];
    let later = [
        RunnerEvent::Launched,
        RunnerEvent::JobDone(JobOutcome::Completed),
        RunnerEvent::JobDone(JobOutcome::WaitFailed),
        RunnerEvent::JobDone(JobOutcome::SinkFailed),
        RunnerEvent::FailureSignal,
    ];
    for end in ends {
        for event in later {
            let mut runner = awaiting(1);
            assert!(runner.handle(end));
            let directive = runner.directive();
            assert!(matches!(directive, RunnerDirective::Return(_)));
            assert!(!runner.handle(event));
            assert_eq!(runner.directive(), directive);
            assert_eq!(runner.jobs(), 1);
        }
    }
}

#[test]
fn the_turn_is_the_number_of_completed_jobs() {
    let mut runner = awaiting(5);
    let mut completed = 0;
    for event in [
        RunnerEvent::JobDone(JobOutcome::Completed),
        RunnerEvent::Launched,
        RunnerEvent::JobDone(JobOutcome::Completed),
        RunnerEvent::JobDone(JobOutcome::Completed),
        RunnerEvent::FailureSignal,
        RunnerEvent::JobDone(JobOutcome::Completed),
    ] {
        if runner.handle(event) && event == RunnerEvent::JobDone(JobOutcome::Completed) {
            completed += 1;
        }
        assert_eq!(runner.turn(), completed);
    }
    assert_eq!(completed, 3);
    assert_eq!(runner.directive(), RunnerDirective::Return(RunEnd::Stopped));
}

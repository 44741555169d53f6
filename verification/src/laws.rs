//! What holds of every run, proved from the three state machines.

use crate::job::{job_step, payload, Exit, JobEventView, JobOutcome, JobState, Stream};
use crate::launch::{launch_directive, LaunchEventView};
use crate::model::{concat, job_move, run, runner_move, step, Move, Running, World};
use crate::runner::{RunEnd, RunnerEvent, RunnerPhase};
use vstd::prelude::*;

verus! {

/// Whether every block from `from` on is empty.
pub open spec fn silent_from(blocks: Seq<Seq<u8>>, from: int) -> bool {
    forall|j: int| from <= j < blocks.len() ==> (#[trigger] blocks[j]).len() == 0
}

/// Bytes added to a block after which all blocks are empty come last in the row.
proof fn lemma_concat_grows_at_the_end(blocks: Seq<Seq<u8>>, at: int, more: Seq<u8>)
    requires
        0 <= at < blocks.len(),
        silent_from(blocks, at + 1),
    ensures
        concat(blocks.update(at, blocks[at] + more)) == concat(blocks) + more,
    decreases blocks.len(),
{
    let grown = blocks.update(at, blocks[at] + more);
    if at == blocks.len() - 1 {
        assert(grown.drop_last() == blocks.drop_last());
    } else {
        lemma_concat_grows_at_the_end(blocks.drop_last(), at, more);
        assert(grown.drop_last() == blocks.drop_last().update(at, blocks[at] + more));
    }
}

/// Empty blocks at the end add nothing to the row.
proof fn lemma_concat_skips_silent_end(blocks: Seq<Seq<u8>>, from: int)
    requires
        0 <= from <= blocks.len(),
        silent_from(blocks, from),
    ensures
        concat(blocks) == concat(blocks.take(from)),
    decreases blocks.len(),
{
    if from == blocks.len() {
        assert(blocks.take(from) == blocks);
    } else {
        lemma_concat_skips_silent_end(blocks.drop_last(), from);
        assert(blocks.drop_last().take(from) == blocks.take(from));
    }
}

/// What every run keeps true once the runner has been started.
///
/// The jobs before the turn have completed, the jobs after it still wait and
/// have heard nothing, and the sink holds what the jobs have heard, job by
/// job in launch order.
pub open spec fn in_order(running: Running) -> bool {
    let turn = running.runner.turn as int;
    &&& running.runner.wf()
    &&& running.jobs.len() == running.runner.jobs
    &&& running.heard.len() == running.runner.jobs
    &&& running.sink == concat(running.heard)
    &&& forall|j: int|
        0 <= j < turn && j < running.jobs.len() ==> #[trigger] running.jobs[j]
            == JobState::Finished(JobOutcome::Completed)
    &&& forall|j: int|
        turn < j < running.jobs.len() ==> #[trigger] running.jobs[j] == JobState::Waiting
    &&& forall|j: int|
        0 <= j < running.jobs.len() && running.jobs[j] == JobState::Waiting ==> (
        #[trigger] running.heard[j]).len() == 0
    &&& match running.runner.phase {
        RunnerPhase::Launching => !running.signalled && (running.jobs.len() > 0
            ==> running.jobs[0] == JobState::Waiting),
        RunnerPhase::Awaiting => running.signalled ==> running.jobs[turn] == JobState::Finished(
            JobOutcome::WaitFailed,
        ),
        RunnerPhase::Ended(RunEnd::Completed) => !running.signalled,
        RunnerPhase::Ended(RunEnd::Stopped) => running.jobs[turn] == JobState::Finished(
            JobOutcome::WaitFailed,
        ),
        RunnerPhase::Ended(RunEnd::Fatal) => running.jobs[turn] == JobState::Finished(
            JobOutcome::SinkFailed,
        ),
    }
}

/// What every run keeps true: a runner is started only when every command
/// has been spawned, with one job for each, and from then on the jobs are
/// handled in order.
pub open spec fn sound(world: World) -> bool {
    &&& world.launcher.wf()
    &&& match world.running {
        Some(running) => {
            &&& world.launcher.failure is None
            &&& world.launcher.spawned == world.launcher.commands.len()
            &&& running.runner.jobs == world.launcher.commands.len()
            &&& in_order(running)
        },
        None => true,
    }
}

/// A run begins in order.
proof fn lemma_fresh_is_in_order(jobs: nat)
    ensures
        in_order(Running::fresh(jobs)),
{
    lemma_concat_of_silence(Running::fresh(jobs).heard);
}

/// A row of empty blocks is empty.
proof fn lemma_concat_of_silence(blocks: Seq<Seq<u8>>)
    requires
        silent_from(blocks, 0),
    ensures
        concat(blocks) == Seq::<u8>::empty(),
    decreases blocks.len(),
{
    if blocks.len() > 0 {
        lemma_concat_of_silence(blocks.drop_last());
    }
}

/// What the runner hears keeps the run in order.
proof fn lemma_runner_move_keeps_order(running: Running, event: RunnerEvent)
    requires
        in_order(running),
        runner_move(running, event) is Some,
    ensures
        in_order(runner_move(running, event).unwrap()),
{
}

/// What a job hears keeps the run in order, and only the job at the turn
/// hears anything.
proof fn lemma_job_move_keeps_order(running: Running, index: nat, event: JobEventView)
    requires
        in_order(running),
        job_move(running, index, event) is Some,
    ensures
        in_order(job_move(running, index, event).unwrap()),
        running.runner.phase == RunnerPhase::Awaiting,
        index == running.runner.turn,
{
    let turn = running.runner.turn as int;
    // The jobs before the turn have finished, and those after it wait for a
    // release that the runner does not direct: none of them takes anything in.
    assert(index == turn && running.runner.phase == RunnerPhase::Awaiting);
    assert(silent_from(running.heard, turn + 1));
    lemma_concat_grows_at_the_end(running.heard, turn, payload(event));
}

/// One move keeps a sound world sound.
pub proof fn law_moves_keep_soundness(world: World, m: Move)
    requires
        sound(world),
        step(world, m) is Some,
    ensures
        sound(step(world, m).unwrap()),
{
    match (m, world.running) {
        (Move::Launcher(event), None) => {},
        (Move::Start, None) => {
            lemma_fresh_is_in_order(world.launcher.commands.len());
        },
        (Move::Runner(event), Some(running)) => {
            lemma_runner_move_keeps_order(running, event);
        },
        (Move::Job { index, event }, Some(running)) => {
            lemma_job_move_keeps_order(running, index, event);
        },
        _ => {},
    }
}

/// Every world that a run comes to is sound.
pub proof fn law_runs_are_sound(commands: Seq<Seq<char>>, moves: Seq<Move>)
    requires
        run(World::initial(commands), moves) is Some,
    ensures
        sound(run(World::initial(commands), moves).unwrap()),
        run(World::initial(commands), moves).unwrap().launcher.commands == commands,
    decreases moves.len(),
{
    if moves.len() > 0 {
        law_runs_are_sound(commands, moves.drop_last());
        let before = run(World::initial(commands), moves.drop_last()).unwrap();
        law_moves_keep_soundness(before, moves.last());
    }
}

/// Whether the moves lead from the start, with these command lines, to `world`.
pub open spec fn comes_to(commands: Seq<Seq<char>>, moves: Seq<Move>, world: World) -> bool {
    run(World::initial(commands), moves) == Some(world)
}

/// The output of a run without failure is the output of its jobs, block by
/// block in launch order: whatever the order in which the children produced
/// it, every byte that a job has heard is written once, and the bytes of one
/// job stand together.
pub proof fn law_blocks_in_launch_order(
    commands: Seq<Seq<char>>,
    moves: Seq<Move>,
    world: World,
    running: Running,
)
    requires
        comes_to(commands, moves, world),
        world.running == Some(running),
        running.runner.phase == RunnerPhase::Ended(RunEnd::Completed),
    ensures
        world.written() == concat(running.heard),
        running.heard.len() == commands.len(),
        forall|j: int|
            0 <= j < running.jobs.len() ==> #[trigger] running.jobs[j] == JobState::Finished(
                JobOutcome::Completed,
            ),
{
    law_runs_are_sound(commands, moves);
}

/// At every moment of a run the sink holds whole blocks of the jobs before
/// the turn, then what the job at the turn has heard so far, and nothing of
/// the jobs after it.
pub proof fn law_sink_follows_the_turn(
    commands: Seq<Seq<char>>,
    moves: Seq<Move>,
    world: World,
    running: Running,
)
    requires
        comes_to(commands, moves, world),
        world.running == Some(running),
    ensures
        running.heard.len() == commands.len(),
        running.runner.turn <= running.heard.len(),
        silent_from(running.heard, running.runner.turn as int + 1),
        world.written() == concat(running.heard),
        running.runner.turn < running.heard.len() ==> world.written() == concat(
            running.heard.take(running.runner.turn as int),
        ) + running.heard[running.runner.turn as int],
{
    law_runs_are_sound(commands, moves);
    let turn = running.runner.turn as int;
    assert(silent_from(running.heard, turn + 1));
    if turn < running.heard.len() {
        lemma_concat_skips_silent_end(running.heard, turn + 1);
        assert(running.heard.take(turn + 1).drop_last() == running.heard.take(turn));
    }
}

/// A job leaves its waiting only when every job before it has completed, so
/// at most one job is at work at any moment.
pub proof fn law_one_job_at_a_time(
    commands: Seq<Seq<char>>,
    moves: Seq<Move>,
    world: World,
    running: Running,
    earlier: int,
    later: int,
)
    requires
        comes_to(commands, moves, world),
        world.running == Some(running),
        0 <= earlier < later < running.jobs.len(),
        running.jobs[later] != JobState::Waiting,
    ensures
        running.jobs[earlier] == JobState::Finished(JobOutcome::Completed),
{
    law_runs_are_sound(commands, moves);
}

/// Only the job whose turn it is takes anything in, and only while the runner
/// awaits it: every other job has either completed or hears nothing, whatever
/// its child does in the meantime.
pub proof fn law_only_the_job_at_the_turn_moves(
    commands: Seq<Seq<char>>,
    moves: Seq<Move>,
    world: World,
    running: Running,
    index: nat,
    event: JobEventView,
)
    requires
        comes_to(commands, moves, world),
        world.running == Some(running),
        step(world, Move::Job { index, event }) is Some,
    ensures
        running.runner.phase == RunnerPhase::Awaiting,
        index == running.runner.turn,
{
    law_runs_are_sound(commands, moves);
    lemma_job_move_keeps_order(running, index, event);
}

/// When a job fails, the blocks of the jobs before it are in the sink in
/// full, followed by what the failing job had heard; the jobs after it were
/// never released and have added nothing.
pub proof fn law_failure_keeps_earlier_blocks(
    commands: Seq<Seq<char>>,
    moves: Seq<Move>,
    world: World,
    running: Running,
)
    requires
        comes_to(commands, moves, world),
        world.running == Some(running),
        running.runner.phase == RunnerPhase::Ended(RunEnd::Stopped) || running.runner.phase
            == RunnerPhase::Ended(RunEnd::Fatal),
    ensures
        running.runner.turn < running.jobs.len() == running.heard.len(),
        world.written() == concat(running.heard.take(running.runner.turn as int))
            + running.heard[running.runner.turn as int],
        forall|j: int|
            0 <= j < running.runner.turn ==> #[trigger] running.jobs[j] == JobState::Finished(
                JobOutcome::Completed,
            ),
        forall|j: int|
            running.runner.turn < j < running.jobs.len() ==> #[trigger] running.jobs[j]
                == JobState::Waiting && running.heard[j].len() == 0,
{
    law_runs_are_sound(commands, moves);
    law_sink_follows_the_turn(commands, moves, world, running);
}

/// The output of a run that failed at some job begins with the output of a
/// run of the jobs before it alone, byte for byte, if those jobs hear the same.
pub proof fn law_failed_run_begins_like_shorter_run(
    commands: Seq<Seq<char>>,
    moves: Seq<Move>,
    world: World,
    running: Running,
    shorter_commands: Seq<Seq<char>>,
    shorter_moves: Seq<Move>,
    shorter_world: World,
    shorter_running: Running,
)
    requires
        comes_to(commands, moves, world),
        world.running == Some(running),
        running.runner.phase == RunnerPhase::Ended(RunEnd::Stopped) || running.runner.phase
            == RunnerPhase::Ended(RunEnd::Fatal),
        comes_to(shorter_commands, shorter_moves, shorter_world),
        shorter_world.running == Some(shorter_running),
        shorter_running.runner.phase == RunnerPhase::Ended(RunEnd::Completed),
        shorter_running.heard == running.heard.take(running.runner.turn as int),
    ensures
        shorter_world.written().is_prefix_of(world.written()),
        world.written() == shorter_world.written() + running.heard[running.runner.turn as int],
{
    law_failure_keeps_earlier_blocks(commands, moves, world, running);
    law_blocks_in_launch_order(shorter_commands, shorter_moves, shorter_world, shorter_running);
}

/// What is written depends only on what each job has heard, not on when the
/// children produced it nor on the order of the moves: two runs whose jobs
/// have heard the same have written the same.
pub proof fn law_same_blocks_same_output(
    commands: Seq<Seq<char>>,
    moves: Seq<Move>,
    world: World,
    running: Running,
    other_commands: Seq<Seq<char>>,
    other_moves: Seq<Move>,
    other_world: World,
    other_running: Running,
)
    requires
        comes_to(commands, moves, world),
        world.running == Some(running),
        comes_to(other_commands, other_moves, other_world),
        other_world.running == Some(other_running),
        running.heard == other_running.heard,
    ensures
        world.written() == other_world.written(),
{
    law_runs_are_sound(commands, moves);
    law_runs_are_sound(other_commands, other_moves);
}

/// After a command could not be spawned the run is over before it began: no
/// runner was started, nothing is written, and no move can be made.
pub proof fn law_failed_spawn_ends_the_run(
    commands: Seq<Seq<char>>,
    moves: Seq<Move>,
    world: World,
)
    requires
        comes_to(commands, moves, world),
        world.launcher.failure is Some,
    ensures
        world.running is None,
        world.written() == Seq::<u8>::empty(),
        launch_directive(world.launcher) is Abort,
        forall|m: Move| step(world, m) is None,
{
    law_runs_are_sound(commands, moves);
}

/// A runner is started only when every command has been spawned, and it has
/// one job for each.
pub proof fn law_runner_needs_every_spawn(
    commands: Seq<Seq<char>>,
    moves: Seq<Move>,
    world: World,
    running: Running,
)
    requires
        comes_to(commands, moves, world),
        world.running == Some(running),
    ensures
        world.launcher.failure is None,
        world.launcher.spawned == commands.len(),
        running.jobs.len() == commands.len(),
{
    law_runs_are_sound(commands, moves);
}

/// Whether the run is over: a command could not be spawned, or the runner has
/// returned.
pub open spec fn over(world: World) -> bool {
    match world.running {
        Some(running) => running.runner.phase is Ended,
        None => world.launcher.failure is Some,
    }
}

/// A move that can be made in a world in which the run is not over: the
/// launcher hears of a spawn, the runner is started or hears of the launch, or
/// the job at the turn hears the next thing that its directive can bring,
/// with nothing read; once it has finished, the runner hears of it.
pub open spec fn way_on(world: World) -> Move {
    match world.running {
        None => if world.launcher.pending() {
            Move::Launcher(LaunchEventView::Spawned)
        } else {
            Move::Start
        },
        Some(running) => {
            let index = running.runner.turn;
            match running.runner.phase {
                RunnerPhase::Launching => Move::Runner(RunnerEvent::Launched),
                _ => match running.jobs[index as int] {
                    JobState::Waiting => Move::Job { index, event: JobEventView::Released },
                    JobState::Draining { .. } => Move::Job {
                        index,
                        event: JobEventView::Exited(Exit::Status { success: true }),
                    },
                    JobState::Collecting { stream, .. } => Move::Job {
                        index,
                        event: JobEventView::Residue { stream, bytes: Seq::empty() },
                    },
                    JobState::Flushing { .. } => Move::Job { index, event: JobEventView::Flushed },
                    JobState::Reporting => Move::Job { index, event: JobEventView::Signalled },
                    JobState::Finished(outcome) => Move::Runner(RunnerEvent::JobDone(outcome)),
                },
            }
        },
    }
}

/// A run never comes to a halt before it is over, and once it is over no
/// move is left: no machine waits for what cannot come, not after a failure
/// either.
pub proof fn law_run_goes_on_until_it_is_over(
    commands: Seq<Seq<char>>,
    moves: Seq<Move>,
    world: World,
)
    requires
        comes_to(commands, moves, world),
    ensures
        !over(world) ==> step(world, way_on(world)) is Some,
        over(world) ==> forall|m: Move| step(world, m) is None,
{
    law_runs_are_sound(commands, moves);
    if over(world) {
        assert forall|m: Move| step(world, m) is None by {
            if let Some(running) = world.running {
                if let Move::Job { index, event } = m {
                    if job_move(running, index, event) is Some {
                        lemma_job_move_keeps_order(running, index, event);
                    }
                }
            }
        }
    }
}

/// The moves of a job that is released, hears nothing from its child but a
/// clean exit, and is reported done.
pub open spec fn silent_turn(index: nat) -> Seq<Move> {
    seq![
        Move::Job { index, event: JobEventView::Released },
        Move::Job { index, event: JobEventView::Exited(Exit::Status { success: true }) },
        Move::Job {
            index,
            event: JobEventView::Residue { stream: Stream::Stdout, bytes: Seq::empty() },
        },
        Move::Job {
            index,
            event: JobEventView::Residue { stream: Stream::Stderr, bytes: Seq::empty() },
        },
        Move::Job { index, event: JobEventView::Flushed },
        Move::Runner(RunnerEvent::JobDone(JobOutcome::Completed)),
    ]
}

/// A job without any output still gives way: its turn can be played to the
/// end without a byte written, and then the runner releases the next job, or
/// has completed if there is none.
pub proof fn law_silent_job_gives_way(
    commands: Seq<Seq<char>>,
    moves: Seq<Move>,
    world: World,
    running: Running,
)
    requires
        comes_to(commands, moves, world),
        world.running == Some(running),
        running.runner.phase == RunnerPhase::Awaiting,
        running.jobs[running.runner.turn as int] == JobState::Waiting,
    ensures
        run(world, silent_turn(running.runner.turn)) is Some,
        ({
            let after = run(world, silent_turn(running.runner.turn)).unwrap();
            &&& after.written() == world.written()
            &&& after.running is Some
            &&& after.running.unwrap().runner == running.runner.at_turn(running.runner.turn + 1)
        }),
{
    law_runs_are_sound(commands, moves);
    let all = silent_turn(running.runner.turn);
    assert(run(world, all.take(0)) == Some(world));
    lemma_run_by_steps(world, all, 0);
    lemma_run_by_steps(world, all, 1);
    lemma_run_by_steps(world, all, 2);
    lemma_run_by_steps(world, all, 3);
    lemma_run_by_steps(world, all, 4);
    lemma_run_by_steps(world, all, 5);
    assert(all.take(6) == all);
}

/// A run of one move more is the run without it, then that move.
proof fn lemma_run_by_steps(world: World, moves: Seq<Move>, upto: int)
    requires
        0 <= upto < moves.len(),
    ensures
        run(world, moves.take(upto + 1)) == match run(world, moves.take(upto)) {
            Some(before) => step(before, moves[upto]),
            None => None,
        },
{
    assert(moves.take(upto + 1).drop_last() == moves.take(upto));
}

} // verus!

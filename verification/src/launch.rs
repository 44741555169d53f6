//! The launch: every command is spawned, in order, before any job runs.
//!
//! A command that cannot be spawned ends the launch at once. No runner comes
//! to be, so no job is ever released and nothing is written.

use crate::command::{command_of, texts, Command, CommandView};
use crate::runner::{Runner, RunnerView};
use vstd::prelude::*;

verus! {

/// A command could not be found or started.
#[derive(PartialEq, Eq, Debug)]
pub struct SpawnError {
    /// The command line as it was given.
    pub command: String,
    /// What the system said.
    pub cause: String,
}

/// A [`SpawnError`] as a mathematical value.
pub struct SpawnErrorView {
    pub command: Seq<char>,
    pub cause: Seq<char>,
}

impl View for SpawnError {
    type V = SpawnErrorView;

    open spec fn view(&self) -> SpawnErrorView {
        SpawnErrorView { command: self.command@, cause: self.cause@ }
    }
}

impl SpawnError {
    /// The line shown to the user: it names the command, not the cause.
    pub fn message(&self) -> (text: String)
        ensures
            text@ == "could not spawn command "@ + self.command@,
    {
        let mut text = String::from_str("could not spawn command ");
        text.append(self.command.as_str());
        text
    }
}

/// A launcher as a mathematical value: the command lines, how many of them
/// have been spawned, and why the next one could not be, if so.
pub struct LauncherView {
    pub commands: Seq<Seq<char>>,
    pub spawned: nat,
    pub failure: Option<Seq<char>>,
}

impl LauncherView {
    /// A launcher that has spawned nothing yet.
    pub open spec fn fresh(commands: Seq<Seq<char>>) -> LauncherView {
        LauncherView { commands, spawned: 0, failure: None }
    }

    /// No more commands are spawned than there are, and a failure belongs to
    /// a command.
    pub open spec fn wf(self) -> bool {
        &&& self.spawned <= self.commands.len()
        &&& self.failure is Some ==> self.spawned < self.commands.len()
    }

    /// Whether a command is waiting to be spawned.
    pub open spec fn pending(self) -> bool {
        self.failure is None && self.spawned < self.commands.len()
    }
}

/// What the driver reports back to the launcher.
#[derive(PartialEq, Eq, Debug)]
pub enum LaunchEvent {
    /// The command was spawned, with both output streams captured.
    Spawned,
    /// The command could not be spawned.
    Failed { cause: String },
}

/// A [`LaunchEvent`] as a mathematical value.
pub enum LaunchEventView {
    Spawned,
    Failed { cause: Seq<char> },
}

impl View for LaunchEvent {
    type V = LaunchEventView;

    open spec fn view(&self) -> LaunchEventView {
        match *self {
            LaunchEvent::Spawned => LaunchEventView::Spawned,
            LaunchEvent::Failed { cause } => LaunchEventView::Failed { cause: cause@ },
        }
    }
}

/// What the driver of the launch has to do next.
#[derive(Debug)]
pub enum LaunchDirective {
    /// Spawn this command.
    Spawn(Command),
    /// Every command runs: start this runner.
    Start(Runner),
    /// Give up with this error.
    Abort(SpawnError),
}

/// A [`LaunchDirective`] as a mathematical value.
pub enum LaunchDirectiveView {
    Spawn(CommandView),
    Start(RunnerView),
    Abort(SpawnErrorView),
}

impl View for LaunchDirective {
    type V = LaunchDirectiveView;

    open spec fn view(&self) -> LaunchDirectiveView {
        match *self {
            LaunchDirective::Spawn(command) => LaunchDirectiveView::Spawn(command@),
            LaunchDirective::Start(runner) => LaunchDirectiveView::Start(runner@),
            LaunchDirective::Abort(error) => LaunchDirectiveView::Abort(error@),
        }
    }
}

/// The directive that a launcher gives: the next command while there is one
/// and none has failed, the error once one has, else a runner with one job
/// for each command.
pub open spec fn launch_directive(launcher: LauncherView) -> LaunchDirectiveView {
    match launcher.failure {
        Some(cause) => LaunchDirectiveView::Abort(
            SpawnErrorView { command: launcher.commands[launcher.spawned as int], cause },
        ),
        None => if launcher.spawned < launcher.commands.len() {
            LaunchDirectiveView::Spawn(command_of(launcher.commands[launcher.spawned as int]))
        } else {
            LaunchDirectiveView::Start(RunnerView::fresh(launcher.commands.len()))
        },
    }
}

/// One step of the launcher, or `None` where no command is waiting to be
/// spawned.
pub open spec fn launch_step(launcher: LauncherView, event: LaunchEventView) -> Option<
    LauncherView,
> {
    if launcher.pending() {
        Some(
            match event {
                LaunchEventView::Spawned => LauncherView {
                    spawned: launcher.spawned + 1,
                    ..launcher
                },
                LaunchEventView::Failed { cause } => LauncherView {
                    failure: Some(cause),
                    ..launcher
                },
            },
        )
    } else {
        None
    }
}

/// The launcher's state machine.
#[derive(Debug)]
pub struct Launcher {
    commands: Vec<String>,
    spawned: usize,
    failure: Option<String>,
}

impl View for Launcher {
    type V = LauncherView;

    closed spec fn view(&self) -> LauncherView {
        LauncherView {
            commands: texts(self.commands@),
            spawned: self.spawned as nat,
            failure: match self.failure {
                Some(cause) => Some(cause@),
                None => None,
            },
        }
    }
}

impl Launcher {
    #[verifier::type_invariant]
    spec fn inv(self) -> bool {
        self@.wf()
    }

    /// A launcher for these command lines, in launch order.
    pub fn new(commands: Vec<String>) -> (launcher: Launcher)
        ensures
            launcher@ == LauncherView::fresh(texts(commands@)),
    {
        Launcher { commands, spawned: 0, failure: None }
    }

    /// What the driver has to do next.
    pub fn directive(&self) -> (directive: LaunchDirective)
        ensures
            directive@ == launch_directive(self@),
    {
        proof {
            use_type_invariant(self);
        }
        match &self.failure {
            Some(cause) => LaunchDirective::Abort(
                SpawnError { command: self.commands[self.spawned].clone(), cause: cause.clone() },
            ),
            None => if self.spawned < self.commands.len() {
                LaunchDirective::Spawn(Command::parse(self.commands[self.spawned].as_str()))
            } else {
                LaunchDirective::Start(Runner::new(self.commands.len()))
            },
        }
    }

    /// Takes in what the driver reports; the result says whether the event
    /// was accepted.
    ///
    /// Once a command has failed, or when all of them run, every event is
    /// refused and the launcher stays as it was.
    pub fn handle(&mut self, event: LaunchEvent) -> (accepted: bool)
        ensures
            final(self)@.wf(),
            match launch_step(old(self)@, event@) {
                Some(next) => accepted && final(self)@ == next,
                None => !accepted && final(self)@ == old(self)@,
            },
    {
        proof {
            use_type_invariant(&*self);
        }
        if self.failure.is_some() || self.spawned >= self.commands.len() {
            return false;
        }
        match event {
            LaunchEvent::Spawned => {
                self.spawned = self.spawned + 1;
            },
            LaunchEvent::Failed { cause } => {
                self.failure = Some(cause);
            },
        }
        true
    }
}

} // verus!

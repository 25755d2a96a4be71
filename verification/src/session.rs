//! The session that a caller drives.
//!
//! A [`Session`] is started once and then stepped: the caller carries out
//! the [`Action`] it was handed and comes back with the [`Event`] that tells
//! how it went. What the session does is fixed by the machine of
//! [`crate::model`].

use vstd::prelude::*;
use vstd::string::*;

use crate::argv::{prepare_argv, ArgumentVector};
use crate::builtin::{Builtin, Shell};
use crate::error::{Error, EXIT_CLEAN, EXIT_FAILURE};
use crate::model::{
    initial, is_explicit_path, lemma_step_keeps_inv, step, ActionView, CommandView, EventView,
    PhaseView, State,
};
use crate::path::{
    find_in_directory, search_list, search_path, text_of, Listing, PATH_SEPARATOR,
};

verus! {

/// A program to launch: where it is, the arguments it gets, and its
/// environment.
///
/// The session launches every program with an empty environment: nothing
/// of the interpreter's own environment is handed on.
#[derive(Debug, PartialEq, Eq)]
pub struct Command {
    pub path: String,
    pub argv: ArgumentVector,
    pub env: Vec<String>,
}

impl View for Command {
    type V = CommandView;

    open spec fn view(&self) -> CommandView {
        CommandView { path: self.path@, argv: self.argv@, env: self.env.deep_view() }
    }
}

/// What the session asks its caller to do.
#[derive(Debug, PartialEq, Eq)]
pub enum Action {
    /// Show the prompt.
    Prompt,
    /// Read the next line.
    ReadLine,
    /// List the immediate entries of a directory.
    ListDirectory(String),
    /// Carry out a built-in command with these arguments.
    RunBuiltin(Builtin, ArgumentVector),
    /// Create a child process that runs a program.
    Launch(Command),
    /// Wait until the child with this identifier has ended.
    Wait(i32),
    /// Tell the user of a failure.
    Report(Error),
    /// End the session with this status.
    Exit(i32),
}

impl View for Action {
    type V = ActionView;

    open spec fn view(&self) -> ActionView {
        match self {
            Action::Prompt => ActionView::Prompt,
            Action::ReadLine => ActionView::ReadLine,
            Action::ListDirectory(dir) => ActionView::ListDirectory(dir@),
            Action::RunBuiltin(builtin, argv) => ActionView::RunBuiltin(*builtin, argv@),
            Action::Launch(command) => ActionView::Launch(command@),
            Action::Wait(child) => ActionView::Wait(*child),
            Action::Report(error) => ActionView::Report(*error),
            Action::Exit(status) => ActionView::Exit(*status),
        }
    }
}

/// What the caller answers.
#[derive(Debug, PartialEq, Eq)]
pub enum Event {
    /// The prompt was shown.
    PromptShown,
    /// The prompt could not be shown.
    PromptFailed,
    /// A line was read.
    Line(String),
    /// There is no more input.
    EndOfInput,
    /// Reading failed.
    ReadFailed,
    /// A directory was listed: the names of its entries, or `None` where it
    /// could not be listed.
    Listed(Listing),
    /// A built-in command has run.
    BuiltinDone(Result<(), Error>),
    /// A child process was created, with this identifier.
    Spawned(i32),
    /// No child process could be created.
    SpawnFailed,
    /// The child has ended.
    Reaped,
    /// Waiting for the child failed.
    WaitFailed,
    /// The user was told.
    Reported,
}

impl View for Event {
    type V = EventView;

    open spec fn view(&self) -> EventView {
        match self {
            Event::PromptShown => EventView::PromptShown,
            Event::PromptFailed => EventView::PromptFailed,
            Event::Line(line) => EventView::Line(line@),
            Event::EndOfInput => EventView::EndOfInput,
            Event::ReadFailed => EventView::ReadFailed,
            Event::Listed(listing) => EventView::Listed(listing.deep_view()),
            Event::BuiltinDone(result) => EventView::BuiltinDone(*result),
            Event::Spawned(child) => EventView::Spawned(*child),
            Event::SpawnFailed => EventView::SpawnFailed,
            Event::Reaped => EventView::Reaped,
            Event::WaitFailed => EventView::WaitFailed,
            Event::Reported => EventView::Reported,
        }
    }
}

enum Phase {
    Prompting,
    Reading,
    Resolving { argv: ArgumentVector, index: usize },
    RunningBuiltin,
    Spawning,
    Waiting(i32),
    Reporting(Error),
    Finished(i32),
}

impl View for Phase {
    type V = PhaseView;

    closed spec fn view(&self) -> PhaseView {
        match self {
            Phase::Prompting => PhaseView::Prompting,
            Phase::Reading => PhaseView::Reading,
            Phase::Resolving { argv, index } => PhaseView::Resolving {
                argv: argv@,
                index: *index as nat,
            },
            Phase::RunningBuiltin => PhaseView::RunningBuiltin,
            Phase::Spawning => PhaseView::Spawning,
            Phase::Waiting(child) => PhaseView::Waiting(*child),
            Phase::Reporting(error) => PhaseView::Reporting(*error),
            Phase::Finished(status) => PhaseView::Finished(*status),
        }
    }
}

/// One interactive session.
pub struct Session {
    shell: Shell,
    paths: Vec<String>,
    phase: Phase,
}

impl View for Session {
    type V = State;

    closed spec fn view(&self) -> State {
        State { builtins: self.shell@, paths: self.paths.deep_view(), phase: self.phase@ }
    }
}

/// The text of the prompt.
pub open spec fn prompt_text() -> Seq<char> {
    "> "@
}

/// The text to show when the session asks for the prompt.
pub fn prompt() -> (text: &'static str)
    ensures
        text@ == prompt_text(),
{
    "> "
}

/// Tells whether a command was typed as a path.
pub fn explicit_path(name: &str) -> (explicit: bool)
    ensures
        explicit == is_explicit_path(name@),
{
    !name.is_empty() && name.get_char(0) == PATH_SEPARATOR
}

impl Session {
    #[verifier::type_invariant]
    closed spec fn well_formed(&self) -> bool {
        self@.inv()
    }

    /// Starts a session with the built-in commands of `shell` and the
    /// search list that `path`, the value of `PATH` if it has one, stands
    /// for. The session starts by asking for the prompt.
    pub fn start(shell: Shell, path: Option<&str>) -> (started: (Session, Action))
        ensures
            started.0@ == initial(shell@, search_list(text_of(path))),
            started.0@.inv(),
            started.1@ == ActionView::Prompt,
    {
        let paths = search_path(path);
        (Session { shell, paths, phase: Phase::Prompting }, Action::Prompt)
    }

    /// The session with these built-in commands and this search list, as
    /// it waits for the prompt.
    closed spec fn idle(shell: Shell, paths: Vec<String>) -> State {
        initial(shell@, paths.deep_view())
    }

    fn to_prompt(shell: Shell, paths: Vec<String>) -> (next: (Session, Action))
        ensures
            (next.0@, next.1@) == Self::idle(shell, paths).prompt(),
    {
        (Session { shell, paths, phase: Phase::Prompting }, Action::Prompt)
    }

    fn fail(shell: Shell, paths: Vec<String>, error: Error) -> (next: (Session, Action))
        ensures
            (next.0@, next.1@) == Self::idle(shell, paths).fail(error),
    {
        (Session { shell, paths, phase: Phase::Reporting(error) }, Action::Report(error))
    }

    fn finish(shell: Shell, paths: Vec<String>, status: i32) -> (next: (Session, Action))
        ensures
            (next.0@, next.1@) == Self::idle(shell, paths).finish(status),
    {
        (Session { shell, paths, phase: Phase::Finished(status) }, Action::Exit(status))
    }

    fn launch(shell: Shell, paths: Vec<String>, path: String, argv: ArgumentVector) -> (next: (
        Session,
        Action,
    ))
        ensures
            (next.0@, next.1@) == Self::idle(shell, paths).launch(path@, argv@),
    {
        let env: Vec<String> = Vec::new();
        assert(env.deep_view() =~= Seq::<Seq<char>>::empty());
        (
            Session { shell, paths, phase: Phase::Spawning },
            Action::Launch(Command { path, argv, env }),
        )
    }

    fn dispatch(shell: Shell, paths: Vec<String>, line: String) -> (next: (Session, Action))
        ensures
            (next.0@, next.1@) == Self::idle(shell, paths).dispatch(line@),
    {
        let argv = match prepare_argv(line.as_str()) {
            Ok(Some(argv)) => argv,
            Ok(None) => {
                return Self::to_prompt(shell, paths);
            },
            Err(e) => {
                return Self::fail(shell, paths, e);
            },
        };
        proof {
            use_type_invariant(&argv);
        }
        match shell.builtin(argv.command()) {
            Some(builtin) => {
                return (
                    Session { shell, paths, phase: Phase::RunningBuiltin },
                    Action::RunBuiltin(builtin, argv),
                );
            },
            None => {},
        }
        if explicit_path(argv.command().as_str()) {
            let path = argv.command().clone();
            Self::launch(shell, paths, path, argv)
        } else if paths.len() == 0 {
            Self::fail(shell, paths, Error::NotFound)
        } else {
            let first = paths[0].clone();
            (
                Session { shell, paths, phase: Phase::Resolving { argv, index: 0 } },
                Action::ListDirectory(first),
            )
        }
    }

    fn search(
        shell: Shell,
        paths: Vec<String>,
        argv: ArgumentVector,
        index: usize,
        listing: Listing,
    ) -> (next: (Session, Action))
        requires
            index < paths.len(),
        ensures
            (next.0@, next.1@) == Self::idle(shell, paths).search(
                argv@,
                index as nat,
                listing.deep_view(),
            ),
    {
        proof {
            use_type_invariant(&argv);
        }
        match find_in_directory(&paths[index], &listing, argv.command()) {
            Some(path) => {
                let launched = path.clone();
                match argv.with_command(path) {
                    Ok(argv) => Self::launch(shell, paths, launched, argv),
                    Err(e) => Self::fail(shell, paths, e),
                }
            },
            None => {
                if index + 1 < paths.len() {
                    let dir = paths[index + 1].clone();
                    let phase = Phase::Resolving { argv, index: index + 1 };
                    (Session { shell, paths, phase }, Action::ListDirectory(dir))
                } else {
                    Self::fail(shell, paths, Error::NotFound)
                }
            },
        }
    }

    /// Takes the answer to what the session asked for last, and says what
    /// it asks for next.
    pub fn step(self, event: Event) -> (next: (Session, Action))
        ensures
            (next.0@, next.1@) == step(self@, event@),
            self@.inv(),
            next.0@.inv(),
    {
        proof {
            use_type_invariant(&self);
            lemma_step_keeps_inv(self@, event@);
        }
        let Session { shell, paths, phase } = self;
        match phase {
            Phase::Finished(status) => Self::finish(shell, paths, status),
            Phase::Prompting => match event {
                Event::PromptShown => (
                    Session { shell, paths, phase: Phase::Reading },
                    Action::ReadLine,
                ),
                _ => Self::fail(shell, paths, Error::IOFailed),
            },
            Phase::Reading => match event {
                Event::Line(line) => Self::dispatch(shell, paths, line),
                Event::EndOfInput => Self::finish(shell, paths, EXIT_CLEAN),
                _ => Self::fail(shell, paths, Error::IOFailed),
            },
            Phase::Resolving { argv, index } => match event {
                Event::Listed(listing) => Self::search(shell, paths, argv, index, listing),
                _ => Self::fail(shell, paths, Error::IOFailed),
            },
            Phase::RunningBuiltin => match event {
                Event::BuiltinDone(Ok(_)) => Self::to_prompt(shell, paths),
                Event::BuiltinDone(Err(error)) => Self::fail(shell, paths, error),
                _ => Self::fail(shell, paths, Error::IOFailed),
            },
            Phase::Spawning => match event {
                Event::Spawned(child) => (
                    Session { shell, paths, phase: Phase::Waiting(child) },
                    Action::Wait(child),
                ),
                Event::SpawnFailed => Self::fail(shell, paths, Error::SpawnFailed),
                _ => Self::fail(shell, paths, Error::IOFailed),
            },
            Phase::Waiting(_) => match event {
                Event::Reaped => Self::to_prompt(shell, paths),
                Event::WaitFailed => Self::fail(shell, paths, Error::WaitFailed),
                _ => Self::fail(shell, paths, Error::IOFailed),
            },
            Phase::Reporting(error) => match event {
                Event::Reported => {
                    if error.fatal() {
                        Self::finish(shell, paths, EXIT_FAILURE)
                    } else {
                        Self::to_prompt(shell, paths)
                    }
                },
                _ => Self::fail(shell, paths, Error::IOFailed),
            },
        }
    }
}

} // verus!

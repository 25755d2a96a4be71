//! The session as a state machine over plain values.
//!
//! The session never touches the terminal, the file system or a process
//! itself. It asks for one thing at a time (an [`ActionView`]) and is told
//! how that went (an [`EventView`]); [`step`] says what it asks for next.
//! This module states the machine over sequences of characters; the
//! executable session in [`crate::session`] is proved to follow it.

use vstd::prelude::*;

use crate::argv::is_argument_vector;
use crate::builtin::Builtin;
use crate::error::{Error, EXIT_CLEAN, EXIT_FAILURE};
use crate::path::{found_in, resolve, ListingView, PATH_SEPARATOR};
use crate::tokenizer::tokens;

verus! {

/// A program to launch: where it is, the arguments it gets, and its
/// environment. The session launches every program with an empty
/// environment.
pub struct CommandView {
    pub path: Seq<char>,
    pub argv: Seq<Seq<char>>,
    pub env: Seq<Seq<char>>,
}

/// What the session asks its surroundings to do.
pub enum ActionView {
    /// Show the prompt.
    Prompt,
    /// Read the next line.
    ReadLine,
    /// List the immediate entries of a directory.
    ListDirectory(Seq<char>),
    /// Carry out a built-in command with these arguments.
    RunBuiltin(Builtin, Seq<Seq<char>>),
    /// Create a child process that runs a program.
    Launch(CommandView),
    /// Wait until the child with this identifier has ended.
    Wait(i32),
    /// Tell the user of a failure.
    Report(Error),
    /// End the session with this status.
    Exit(i32),
}

/// What the surroundings answer.
pub enum EventView {
    /// The prompt was shown.
    PromptShown,
    /// The prompt could not be shown.
    PromptFailed,
    /// A line was read.
    Line(Seq<char>),
    /// There is no more input.
    EndOfInput,
    /// Reading failed.
    ReadFailed,
    /// A directory was listed: the names of its entries, or `None` where it
    /// could not be listed.
    Listed(ListingView),
    /// A built-in command has run.
    BuiltinDone(Result<(), Error>),
    /// A child process was created, with this identifier.
    Spawned(i32),
    /// No child process could be created.
    SpawnFailed,
    /// The child has ended.
    Reaped,
    /// Waiting for the child failed.
    WaitFailed,
    /// The user was told.
    Reported,
}

/// What the session is waiting for.
pub enum PhaseView {
    /// For the prompt to be shown.
    Prompting,
    /// For a line.
    Reading,
    /// For the listing of the directory at position `index` of the search
    /// list, in which the command `argv[0]` is looked for.
    Resolving { argv: Seq<Seq<char>>, index: nat },
    /// For a built-in command to finish.
    RunningBuiltin,
    /// For the child process to be created.
    Spawning,
    /// For the child with this identifier to end.
    Waiting(i32),
    /// For the user to be told of this failure.
    Reporting(Error),
    /// For nothing: the session has ended with this status.
    Finished(i32),
}

/// A session: the table of built-in commands and the search list, both
/// fixed from the start, and what the session is waiting for.
pub struct State {
    pub builtins: Map<Seq<char>, Builtin>,
    pub paths: Seq<Seq<char>>,
    pub phase: PhaseView,
}

/// Whether a command was typed as a path, to be run as it stands.
pub open spec fn is_explicit_path(name: Seq<char>) -> bool {
    name.len() > 0 && name[0] == PATH_SEPARATOR
}

impl State {
    /// What holds of every session: while a command is looked for, there is
    /// a directory left to look in and the arguments are in order.
    pub open spec fn inv(self) -> bool {
        self.phase matches PhaseView::Resolving { argv, index } ==> index < self.paths.len()
            && is_argument_vector(argv)
    }

    /// The same session in another phase.
    pub open spec fn at(self, phase: PhaseView) -> State {
        State { phase, ..self }
    }

    /// The session goes back to the prompt.
    pub open spec fn prompt(self) -> (State, ActionView) {
        (self.at(PhaseView::Prompting), ActionView::Prompt)
    }

    /// The session tells the user of a failure.
    pub open spec fn fail(self, error: Error) -> (State, ActionView) {
        (self.at(PhaseView::Reporting(error)), ActionView::Report(error))
    }

    /// The session launches the program at `path` with the arguments `argv`
    /// and an empty environment.
    pub open spec fn launch(self, path: Seq<char>, argv: Seq<Seq<char>>) -> (State, ActionView) {
        (
            self.at(PhaseView::Spawning),
            ActionView::Launch(CommandView { path, argv, env: Seq::empty() }),
        )
    }

    /// The session ends with `status`.
    pub open spec fn finish(self, status: i32) -> (State, ActionView) {
        (self.at(PhaseView::Finished(status)), ActionView::Exit(status))
    }

    /// What a typed line leads to.
    ///
    /// A line with a NUL in it is refused and a blank line is passed over.
    /// Otherwise the first word decides: a built-in command is carried out
    /// with the words as they are; a path is launched as it stands; any
    /// other name is looked for along the search list, starting with its
    /// first directory, and is not found where the list is empty.
    pub open spec fn dispatch(self, line: Seq<char>) -> (State, ActionView) {
        let words = tokens(line);
        if line.contains('\0') {
            self.fail(Error::InvalidArgument)
        } else if words.len() == 0 {
            self.prompt()
        } else if self.builtins.contains_key(words[0]) {
            (
                self.at(PhaseView::RunningBuiltin),
                ActionView::RunBuiltin(self.builtins[words[0]], words),
            )
        } else if is_explicit_path(words[0]) {
            self.launch(words[0], words)
        } else if self.paths.len() == 0 {
            self.fail(Error::NotFound)
        } else {
            (
                self.at(PhaseView::Resolving { argv: words, index: 0 }),
                ActionView::ListDirectory(self.paths[0]),
            )
        }
    }

    /// What the listing of the directory at position `index` leads to while
    /// the command `argv[0]` is looked for.
    ///
    /// Where the directory has the command, the program found is launched,
    /// its path taking the place of argument 0; a path that no argument can
    /// hold is refused. Where it has not, the next directory is listed, and
    /// after the last one the command is not found.
    pub open spec fn search(self, argv: Seq<Seq<char>>, index: nat, listing: ListingView) -> (
        State,
        ActionView,
    ) {
        match found_in(self.paths[index as int], listing, argv[0]) {
            Some(path) => {
                if path.contains('\0') {
                    self.fail(Error::InvalidArgument)
                } else {
                    self.launch(path, argv.update(0, path))
                }
            },
            None => {
                if index + 1 < self.paths.len() {
                    (
                        self.at(PhaseView::Resolving { argv, index: index + 1nat }),
                        ActionView::ListDirectory(self.paths[index + 1int]),
                    )
                } else {
                    self.fail(Error::NotFound)
                }
            },
        }
    }
}

/// The session at its start, with the search list `paths`: waiting for the
/// first prompt to be shown.
pub open spec fn initial(builtins: Map<Seq<char>, Builtin>, paths: Seq<Seq<char>>) -> State {
    State { builtins, paths, phase: PhaseView::Prompting }
}

/// One step of the session: the state it is in after `event`, and what it
/// asks for next.
///
/// An event that does not answer what the session asked for is taken as a
/// failure of input and output. A session that has ended stays ended.
pub open spec fn step(state: State, event: EventView) -> (State, ActionView) {
    match (state.phase, event) {
        (PhaseView::Finished(status), _) => (state, ActionView::Exit(status)),
        (PhaseView::Prompting, EventView::PromptShown) => (
            state.at(PhaseView::Reading),
            ActionView::ReadLine,
        ),
        (PhaseView::Reading, EventView::Line(line)) => state.dispatch(line),
        (PhaseView::Reading, EventView::EndOfInput) => state.finish(EXIT_CLEAN),
        (PhaseView::Resolving { argv, index }, EventView::Listed(listing)) => state.search(
            argv,
            index,
            listing,
        ),
        (PhaseView::RunningBuiltin, EventView::BuiltinDone(Ok(_))) => state.prompt(),
        (PhaseView::RunningBuiltin, EventView::BuiltinDone(Err(error))) => state.fail(error),
        (PhaseView::Spawning, EventView::Spawned(child)) => (
            state.at(PhaseView::Waiting(child)),
            ActionView::Wait(child),
        ),
        (PhaseView::Spawning, EventView::SpawnFailed) => state.fail(Error::SpawnFailed),
        (PhaseView::Waiting(_), EventView::Reaped) => state.prompt(),
        (PhaseView::Waiting(_), EventView::WaitFailed) => state.fail(Error::WaitFailed),
        (PhaseView::Reporting(error), EventView::Reported) => {
            if error.is_fatal() {
                state.finish(EXIT_FAILURE)
            } else {
                state.prompt()
            }
        },
        _ => state.fail(Error::IOFailed),
    }
}

/// The session after a run of events, and what it asked for after each of
/// them.
pub open spec fn run(state: State, events: Seq<EventView>) -> (State, Seq<ActionView>)
    decreases events.len(),
{
    if events.len() == 0 {
        (state, Seq::empty())
    } else {
        let (before, asked) = run(state, events.drop_last());
        let (after, action) = step(before, events.last());
        (after, asked.push(action))
    }
}

/// What the directory at position `i` of the search list holds, where
/// `listings` has one listing for each directory. A directory without a
/// listing cannot be listed.
pub open spec fn listing_at(listings: Seq<ListingView>, i: int) -> ListingView {
    if 0 <= i < listings.len() {
        listings[i]
    } else {
        None
    }
}

/// The number of directories that a session has yet to look in while it
/// looks for a command.
pub open spec fn distance(state: State) -> nat {
    match state.phase {
        PhaseView::Resolving { argv, index } => (state.paths.len() - index) as nat,
        _ => 0,
    }
}

/// Where the session ends up when every directory it asks for is listed as
/// `listings` has it: the first thing it asks for that is no listing, and
/// the state it is in then.
pub open spec fn settle(asked: (State, ActionView), listings: Seq<ListingView>) -> (
    State,
    ActionView,
)
    decreases distance(asked.0),
{
    if asked.0.inv() && asked.1 is ListDirectory {
        if let PhaseView::Resolving { argv, index } = asked.0.phase {
            settle(step(asked.0, EventView::Listed(listing_at(listings, index as int))), listings)
        } else {
            asked
        }
    } else {
        asked
    }
}

/// What a typed line comes to, given what the directories of the search
/// list hold.
///
/// A line with a NUL in it is refused and a blank line only brings the next
/// prompt. A built-in command is carried out with the words of the line. A
/// command typed as a path is launched as it stands, with the words of the
/// line as its arguments. Any other command is launched from the first
/// directory of the search list that has an entry of its name, with the
/// path found as argument 0 and the other words as they were typed; it is
/// not found where no directory has it. The environment of a launched
/// program is empty.
pub open spec fn outcome(state: State, line: Seq<char>, listings: Seq<ListingView>) -> ActionView {
    let words = tokens(line);
    if line.contains('\0') {
        ActionView::Report(Error::InvalidArgument)
    } else if words.len() == 0 {
        ActionView::Prompt
    } else if state.builtins.contains_key(words[0]) {
        ActionView::RunBuiltin(state.builtins[words[0]], words)
    } else if is_explicit_path(words[0]) {
        ActionView::Launch(CommandView { path: words[0], argv: words, env: Seq::empty() })
    } else {
        match resolve(words[0], state.paths, listings) {
            Some(path) => {
                if path.contains('\0') {
                    ActionView::Report(Error::InvalidArgument)
                } else {
                    ActionView::Launch(
                        CommandView { path, argv: words.update(0, path), env: Seq::empty() },
                    )
                }
            },
            None => ActionView::Report(Error::NotFound),
        }
    }
}

/// Every step keeps what holds of every session.
pub proof fn lemma_step_keeps_inv(state: State, event: EventView)
    requires
        state.inv(),
    ensures
        step(state, event).0.inv(),
        step(state, event).0.builtins == state.builtins,
        step(state, event).0.paths == state.paths,
{
    match (state.phase, event) {
        (PhaseView::Reading, EventView::Line(line)) => {
            crate::tokenizer::lemma_tokens_hold_no_nul(line);
        },
        _ => {},
    }
}

} // verus!

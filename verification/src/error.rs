//! The failures the interpreter can meet, and what each of them does to the
//! session.

use vstd::prelude::*;

verus! {

/// A kind of failure.
#[derive(Clone, Copy, Debug, PartialEq, Eq, Structural)]
pub enum Error {
    /// A word of the line cannot be held in an argument vector.
    InvalidArgument,
    /// No directory of the search list holds the command.
    NotFound,
    /// The prompt could not be shown or the line could not be read.
    IOFailed,
    /// No child process could be created.
    SpawnFailed,
    /// The child could not load the program it was created for.
    ExecFailed,
    /// Waiting for the child failed.
    WaitFailed,
    /// A built-in command ran and failed.
    CommandFailed,
    /// A built-in command was given arguments it does not take.
    UnsupportedOperation,
}

/// How far a failure reaches once it has been reported.
#[derive(Clone, Copy, Debug, PartialEq, Eq, Structural)]
pub enum Reach {
    /// The session goes on with the next prompt.
    Recovered,
    /// The child that reports it ends; the session is untouched.
    EndsChild,
    /// The session ends.
    EndsSession,
}

/// What is done about a failure: the message shown to the user and, where
/// the process that reports it must end, the status it ends with.
#[derive(Clone, Copy, Debug, PartialEq, Eq)]
pub struct Handling {
    pub message: &'static str,
    pub reach: Reach,
    pub exit_status: Option<i32>,
}

/// The status of a session that ended because there was no more input.
pub const EXIT_CLEAN: i32 = 0;

/// The status of a process that ended on a failure.
pub const EXIT_FAILURE: i32 = 1;

impl Error {
    /// How far this failure reaches.
    pub open spec fn reach(self) -> Reach {
        match self {
            Error::IOFailed | Error::SpawnFailed => Reach::EndsSession,
            Error::ExecFailed => Reach::EndsChild,
            _ => Reach::Recovered,
        }
    }

    /// Whether this failure ends the session.
    pub open spec fn is_fatal(self) -> bool {
        self.reach() == Reach::EndsSession
    }

    /// The message shown for this failure.
    pub open spec fn message(self) -> Seq<char> {
        match self {
            Error::InvalidArgument => "invalid argument"@,
            Error::NotFound => "command not found"@,
            Error::IOFailed => "I/O failed"@,
            Error::SpawnFailed => "fork failed"@,
            Error::ExecFailed => "exec failed"@,
            Error::WaitFailed => "wait failed"@,
            Error::CommandFailed => "failed to change directory"@,
            Error::UnsupportedOperation => "too many arguments"@,
        }
    }

    /// The status with which the process that reports this failure ends, if
    /// it ends.
    pub open spec fn exit_status(self) -> Option<i32> {
        if self.reach() == Reach::Recovered {
            None
        } else {
            Some(EXIT_FAILURE)
        }
    }

    /// Tells whether this failure ends the session.
    pub fn fatal(self) -> (fatal: bool)
        ensures
            fatal == self.is_fatal(),
    {
        match self {
            Error::IOFailed | Error::SpawnFailed => true,
            _ => false,
        }
    }
}

/// Decides what is done about `error`: which message is shown, how far the
/// failure reaches, and the exit status where a process ends on it.
pub fn handle_error(error: Error) -> (handling: Handling)
    ensures
        handling.message@ == error.message(),
        handling.reach == error.reach(),
        handling.exit_status == error.exit_status(),
{
    match error {
        Error::InvalidArgument => Handling {
            message: "invalid argument",
            reach: Reach::Recovered,
            exit_status: None,
        },
        Error::NotFound => Handling {
            message: "command not found",
            reach: Reach::Recovered,
            exit_status: None,
        },
        Error::IOFailed => Handling {
            message: "I/O failed",
            reach: Reach::EndsSession,
            exit_status: Some(EXIT_FAILURE),
        },
        Error::SpawnFailed => Handling {
            message: "fork failed",
            reach: Reach::EndsSession,
            exit_status: Some(EXIT_FAILURE),
        },
        Error::ExecFailed => Handling {
            message: "exec failed",
            reach: Reach::EndsChild,
            exit_status: Some(EXIT_FAILURE),
        },
        Error::WaitFailed => Handling {
            message: "wait failed",
            reach: Reach::Recovered,
            exit_status: None,
        },
        Error::CommandFailed => Handling {
            message: "failed to change directory",
            reach: Reach::Recovered,
            exit_status: None,
        },
        Error::UnsupportedOperation => Handling {
            message: "too many arguments",
            reach: Reach::Recovered,
            exit_status: None,
        },
    }
}

} // verus!

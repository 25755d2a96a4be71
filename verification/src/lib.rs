//! The core of an interactive command interpreter.
//!
//! A typed line is cut into an argument vector, its first word is looked up
//! among the built-in commands and then along a search list of directories,
//! and the command found is launched as a child process that is awaited before
//! the next prompt. Everything the interpreter decides is decided here. The
//! terminal, the listing of directories and the creation of processes are
//! left to the caller, which carries out one [`session::Action`] at a time
//! and reports back with a [`session::Event`]. Changing the working
//! directory and waiting for a child are done here, through `nix`.
//!
//! - [`tokenizer`] cuts a line into words, and [`argv`] holds them as
//!   arguments.
//! - [`path`] reads the search list and finds a command along it.
//! - [`builtin`] has the table of built-in commands and carries them out.
//! - [`launcher`] waits for the child of a launch.
//! - [`error`] names the failures and says how far each one reaches.
//! - [`model`] states the session as a state machine, [`session`] runs it,
//!   and [`laws`] proves what holds of every run.

pub mod argv;
pub mod builtin;
pub mod error;
pub mod launcher;
pub mod laws;
pub mod model;
mod os;
pub mod path;
pub mod session;
pub mod tokenizer;

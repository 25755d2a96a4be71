//! The calls into the operating system.
//!
//! They go through `nix`, and they are the only part of this library that
//! is taken on trust: each function here hands its arguments to one
//! function of `nix` and hands back what that function returned.

use vstd::prelude::*;

verus! {

/// The error numbers of the operating system, as `nix` hands them out.
#[verifier::external_type_specification]
#[verifier::external_body]
pub struct ExErrno(nix::errno::Errno);

/// Calls `nix::unistd::chdir`, which asks the operating system to make
/// `directory` the working directory of this process. Nothing is claimed of
/// the answer: it depends on what the file system holds.
#[verifier::external_body]
pub(crate) fn change_directory(directory: &str) -> (changed: Result<(), nix::errno::Errno>) {
    nix::unistd::chdir(directory)
}

/// Calls `nix::sys::wait::waitpid` with `child` as the raw identifier of a
/// process and without options, which blocks until that process has changed
/// its state: for a child that nobody traces, until it has ended. The state
/// that `waitpid` reports is dropped. Nothing is claimed of the answer: it
/// depends on what processes there are.
#[verifier::external_body]
pub(crate) fn wait_for_child(child: i32) -> (waited: Result<(), nix::errno::Errno>) {
    match nix::sys::wait::waitpid(nix::unistd::Pid::from_raw(child), None) {
        Ok(_) => Ok(()),
        Err(errno) => Err(errno),
    }
}

} // verus!

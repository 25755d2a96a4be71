//! Awaiting the child of a launch.
//!
//! A launched program runs as a child process, and the session goes on only
//! when that child has ended. Creating the child is left to the caller;
//! waiting for it is done here.

use vstd::prelude::*;

use crate::model::EventView;
use crate::os::wait_for_child;
use crate::session::Event;

verus! {

/// What the session is told once the wait for a child is over: that the
/// child has ended, or that waiting failed.
pub fn wait_outcome(waited: Result<(), nix::errno::Errno>) -> (event: Event)
    ensures
        event@ == if waited is Ok {
            EventView::Reaped
        } else {
            EventView::WaitFailed
        },
{
    match waited {
        Ok(_) => Event::Reaped,
        Err(_) => Event::WaitFailed,
    }
}

/// Waits until the child process `child` has ended, and says what the
/// session is to be told: `Reaped`, or `WaitFailed` where the operating
/// system could not wait for that process.
pub fn reap(child: i32) -> (event: Event)
    ensures
        event@ == EventView::Reaped || event@ == EventView::WaitFailed,
{
    wait_outcome(wait_for_child(child))
}

} // verus!

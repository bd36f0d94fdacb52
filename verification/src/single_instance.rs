//! One Dasktop per user session: a second launch hands its request to the running
//! instance (show the settings window, or reload the front end) and exits.

use vstd::prelude::*;
use crate::text::str_equal;

verus! {

/// The command-line argument of a launch that asks the running instance to reload its
/// front end.
pub const RELOAD_ARGUMENT: &'static str = "--reload";

/// `ERROR_ALREADY_EXISTS`: the named instance mutex was already created.
pub const ERROR_ALREADY_EXISTS: u32 = 183;

/// `WAIT_OBJECT_0`: the awaited event was signalled.
pub const WAIT_OBJECT_0: u32 = 0;

/// Some argument after the program name is `--reload`.
pub open spec fn reload_requested(args: Seq<String>) -> bool {
    exists|i: int| 1 <= i < args.len() && (#[trigger] args[i])@ == RELOAD_ARGUMENT@
}

/// Whether this launch asks for a front-end reload; `args` are the process arguments,
/// the program name first.
pub fn is_reload_invocation(args: &[String]) -> (r: bool)
    ensures
        r == reload_requested(args@),
{
    let n = args.len();
    let mut i: usize = 1;
    while i < n
        invariant
            n == args@.len(),
            1 <= i,
            forall|k: int| 1 <= k < i && k < n ==> (#[trigger] args@[k])@ != RELOAD_ARGUMENT@,
        decreases n - i,
    {
        if str_equal(args[i].as_str(), RELOAD_ARGUMENT) {
            return true;
        }
        i = i + 1;
    }
    false
}

/// What a launch does once it has created the instance mutex.
#[derive(Clone, Copy, PartialEq, Eq, Structural, Debug)]
pub enum StartupDecision {
    /// No other instance runs: keep the mutex and start.
    RunAsPrimary,
    /// Another instance runs: ask it to show its settings window, then exit.
    NotifyShowSettings,
    /// Another instance runs: ask it to reload its front end, then exit.
    NotifyReloadFrontend,
}

/// Decides the launch from the status left by `CreateMutexW` and the arguments.
pub fn acquire_or_notify_existing(mutex_status: u32, args: &[String]) -> (r: StartupDecision)
    ensures
        mutex_status != ERROR_ALREADY_EXISTS ==> r == StartupDecision::RunAsPrimary,
        mutex_status == ERROR_ALREADY_EXISTS && reload_requested(args@) ==> r
            == StartupDecision::NotifyReloadFrontend,
        mutex_status == ERROR_ALREADY_EXISTS && !reload_requested(args@) ==> r
            == StartupDecision::NotifyShowSettings,
{
    if mutex_status == ERROR_ALREADY_EXISTS {
        if is_reload_invocation(args) {
            StartupDecision::NotifyReloadFrontend
        } else {
            StartupDecision::NotifyShowSettings
        }
    } else {
        StartupDecision::RunAsPrimary
    }
}

/// A listener thread keeps waiting while its event is signalled and each request could
/// be handed to the main thread.
pub fn keep_listening(wait_result: u32, dispatched: bool) -> (r: bool)
    ensures
        r == (wait_result == WAIT_OBJECT_0 && dispatched),
{
    wait_result == WAIT_OBJECT_0 && dispatched
}

} // verus!

//! Requests to the operating system, and what their raw results mean.
//!
//! A request names one system call with its arguments. The caller makes the
//! call and hands the raw return value to the request's `complete`, which
//! says what the operation came to.

use crate::result::{
    check_errno, spec_from_status, ExitStatus, ShellError, ShellResult, ShellResultExt,
};
use vstd::prelude::*;

verus! {

/// A signal to deliver with `kill(target, signal)`. A negative target names
/// a process group.
#[derive(Debug, Clone, Copy, PartialEq, Eq, Structural)]
pub struct KillRequest {
    pub target: i32,
    pub signal: i32,
}

/// A wait on `pid` that blocks until the process has exited and leaves its
/// status in place, so that the pid stays valid for signals.
#[derive(Debug, Clone, Copy, PartialEq, Eq, Structural)]
pub struct WaitRequest {
    pub pid: i32,
}

/// A wait on `pid` that consumes the exit status. It is issued once per
/// process; `command_line` says which command the status belongs to.
#[derive(Debug, PartialEq, Eq)]
pub struct ReapRequest {
    pub pid: i32,
    pub command_line: String,
}

/// A system call that sets the stage around a `fork` or a pipe.
#[derive(Debug, Clone, Copy, PartialEq, Eq, Structural)]
pub enum SysCall {
    /// `setpgid(pid, pgid)`; a `pgid` of zero makes `pid` the leader of a
    /// group of its own, and a `pid` of zero names the caller.
    SetPgid { pid: i32, pgid: i32 },
    /// `close(fd)`.
    Close(i32),
    /// `dup2(from, to)`.
    Dup2 { from: i32, to: i32 },
    /// `kill(target, signal)`.
    Kill(KillRequest),
}

/// The two ends of a pipe.
#[derive(Debug, Clone, Copy, PartialEq, Eq, Structural)]
pub struct Pipe {
    pub read: i32,
    pub write: i32,
}

/// Where a reap stands after one `waitpid`.
#[derive(Debug)]
pub enum ReapStep {
    /// The process is gone and this is how its command ended.
    Done(ShellResult),
    /// The status reported no end yet: wait again with the same request.
    Retry(ReapRequest),
}

/// Where a wait for a job stands, and what its caller does next. A wait
/// has two halves: first it blocks until the job has exited, leaving the
/// job in the registry and open to signals; then it takes the job out and
/// reaps it.
#[derive(Debug)]
pub enum WaitStep {
    /// Block until the process has exited, then say what the call returned.
    Peek(WaitRequest),
    /// Reap the process, then say what the call returned and stored.
    Reap(ReapRequest),
    /// The wait is over, with this result.
    Done(ShellResult),
}

impl WaitStep {
    /// The step that follows when the job was looked for in the registry to
    /// block on it: on to the peek, or over because there is no such job.
    pub open spec fn of_peek(found: Result<WaitRequest, ShellError>) -> WaitStep {
        match found {
            Ok(request) => WaitStep::Peek(request),
            Err(error) => WaitStep::Done(Err(error)),
        }
    }

    /// The step that follows when the job was taken out of the registry to
    /// be reaped: on to the reap, or over because somebody else took it.
    pub open spec fn of_take(taken: Result<ReapRequest, ShellError>) -> WaitStep {
        match taken {
            Ok(request) => WaitStep::Reap(request),
            Err(error) => WaitStep::Done(Err(error)),
        }
    }

    /// Takes in what the reap's `waitpid` returned and stored: the wait is
    /// over, or the reap is to be repeated.
    pub fn after_reap(request: ReapRequest, returned: i32, status: ExitStatus) -> (step: WaitStep)
        ensures
            returned == -1 ==> step is Done && step->Done_0 is Err && step->Done_0->Err_0 is Errno
                && step->Done_0->Err_0->Errno_0 == "waitpid",
            returned != -1 && status.spec_outcome() is Some ==> step == WaitStep::Done(
                spec_from_status(request.command_line, status),
            ),
            returned != -1 && status.spec_outcome() is None ==> step == WaitStep::Reap(request),
    {
        match request.complete(returned, status) {
            ReapStep::Done(result) => WaitStep::Done(result),
            ReapStep::Retry(request) => WaitStep::Reap(request),
        }
    }
}

impl KillRequest {
    /// Reads the return value of `kill`: success, or the error it left.
    pub fn complete(self, returned: i32) -> (r: Result<(), ShellError>)
        ensures
            returned != -1 ==> r is Ok,
            returned == -1 ==> r is Err && r->Err_0 is Errno && r->Err_0->Errno_0 == "kill",
    {
        match check_errno("kill", returned) {
            Ok(_) => Ok(()),
            Err(e) => Err(e),
        }
    }
}

impl WaitRequest {
    /// Reads the return value of `waitid`: the process has exited and can be
    /// reaped, or the wait failed.
    pub fn complete(self, returned: i32) -> (r: Result<(), ShellError>)
        ensures
            returned != -1 ==> r is Ok,
            returned == -1 ==> r is Err && r->Err_0 is Errno && r->Err_0->Errno_0 == "waitid",
    {
        match check_errno("waitid", returned) {
            Ok(_) => Ok(()),
            Err(e) => Err(e),
        }
    }
}

impl ReapRequest {
    /// Reads what `waitpid` returned and the status it stored. A failed call
    /// ends the reap with its error. A status that reports an exit or a death
    /// by signal ends it with the command's result. Any other status asks
    /// for another wait.
    pub fn complete(self, returned: i32, status: ExitStatus) -> (step: ReapStep)
        ensures
            returned == -1 ==> step is Done && step->Done_0 is Err && step->Done_0->Err_0 is Errno
                && step->Done_0->Err_0->Errno_0 == "waitpid",
            returned != -1 && status.spec_outcome() is Some ==> step == ReapStep::Done(
                spec_from_status(self.command_line, status),
            ),
            returned != -1 && status.spec_outcome() is None ==> step == ReapStep::Retry(self),
    {
        match check_errno("waitpid", returned) {
            Err(e) => ReapStep::Done(Err(e)),
            Ok(_) => {
                if status.outcome().is_some() {
                    ReapStep::Done(ShellResult::from_status(self.command_line, status))
                } else {
                    ReapStep::Retry(self)
                }
            },
        }
    }
}

} // verus!

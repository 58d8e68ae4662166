//! One live child process.

use crate::request::{KillRequest, ReapRequest, WaitRequest};
use vstd::prelude::*;

verus! {

/// A child process that has been started and not yet reaped.
///
/// The value is the only licence to reap the process: `wait` consumes it, so
/// a status is collected at most once.
#[derive(Debug, PartialEq, Eq)]
pub struct ShellChildCore {
    command_line: String,
    pid: i32,
    has_group: bool,
}

impl ShellChildCore {
    /// A pid names a process only if it is positive.
    #[verifier::type_invariant]
    pub closed spec fn inv(self) -> bool {
        self.pid > 0
    }

    /// The command line the process was started from.
    pub closed spec fn command_line(self) -> String {
        self.command_line
    }

    /// The process id.
    pub closed spec fn pid(self) -> i32 {
        self.pid
    }

    /// Whether the process leads a process group of its own.
    pub closed spec fn has_group(self) -> bool {
        self.has_group
    }

    /// The child that `new` makes of its arguments.
    pub closed spec fn spec_new(command_line: String, pid: i32, has_group: bool) -> ShellChildCore {
        ShellChildCore { command_line, pid, has_group }
    }

    /// A child holds what it was made of, and is valid if its pid is
    /// positive.
    pub proof fn lemma_spec_new(command_line: String, pid: i32, has_group: bool)
        ensures
            Self::spec_new(command_line, pid, has_group).command_line() == command_line,
            Self::spec_new(command_line, pid, has_group).pid() == pid,
            Self::spec_new(command_line, pid, has_group).has_group() == has_group,
            Self::spec_new(command_line, pid, has_group).inv() == (pid > 0),
    {
    }

    /// Where a signal for this child goes: to the whole group, named by the
    /// negated pid, if the child leads one, and to the child alone if not.
    pub open spec fn kill_target(self) -> int {
        if self.has_group() {
            -self.pid()
        } else {
            self.pid() as int
        }
    }

    /// What `signal` returns.
    pub open spec fn spec_signal(self, sig: i32) -> KillRequest {
        KillRequest { target: self.kill_target() as i32, signal: sig }
    }

    /// What `wait` returns.
    pub open spec fn spec_wait(self) -> ReapRequest {
        ReapRequest { pid: self.pid(), command_line: self.command_line() }
    }

    /// A signal for a child is addressed to that child and to nobody else:
    /// to its pid if it has no group, and to the group that carries its pid
    /// if it leads one. Two children with different pids are never reached
    /// by the same request.
    pub proof fn lemma_signal_target(self, other: ShellChildCore, sig: i32)
        requires
            self.inv(),
            other.inv(),
        ensures
            self.spec_signal(sig).signal == sig,
            !self.has_group() ==> self.spec_signal(sig).target == self.pid(),
            self.has_group() ==> self.spec_signal(sig).target == -self.pid(),
            self.spec_signal(sig).target > 0 <==> !self.has_group(),
            self.pid() != other.pid() ==> self.spec_signal(sig).target != other.spec_signal(
                sig,
            ).target,
    {
    }

    /// Records a process that `fork` or a spawn just returned to the parent.
    /// What they return to a parent is a positive pid.
    pub fn new(command_line: String, pid: i32, has_group: bool) -> (core: ShellChildCore)
        requires
            pid > 0,
        ensures
            core == Self::spec_new(command_line, pid, has_group),
            core.inv(),
            core.command_line() == command_line,
            core.pid() == pid,
            core.has_group() == has_group,
    {
        ShellChildCore { command_line, pid, has_group }
    }

    /// The process id.
    pub fn id(&self) -> (pid: i32)
        ensures
            pid == self.pid(),
            pid > 0,
    {
        proof {
            use_type_invariant(self);
        }
        self.pid
    }

    /// Whether the process leads a process group of its own.
    pub fn leads_group(&self) -> (b: bool)
        ensures
            b == self.has_group(),
    {
        self.has_group
    }

    /// Marks the child as the leader of its own process group, or not.
    pub fn set_has_group(&mut self, value: bool)
        ensures
            *final(self) == Self::spec_new(old(self).command_line(), old(self).pid(), value),
            final(self).inv(),
            final(self).has_group() == value,
            final(self).pid() == old(self).pid(),
            final(self).command_line() == old(self).command_line(),
    {
        proof {
            use_type_invariant(&*self);
        }
        self.has_group = value;
    }

    /// The `kill` that sends `sig` to this child.
    pub fn signal(&self, sig: i32) -> (req: KillRequest)
        ensures
            req == self.spec_signal(sig),
            req.target == self.kill_target(),
    {
        proof {
            use_type_invariant(self);
        }
        let target: i32 = if self.has_group {
            -self.pid
        } else {
            self.pid
        };
        KillRequest { target, signal: sig }
    }

    /// The wait that blocks until this child has exited without reaping it.
    pub fn wait_null(&self) -> (req: WaitRequest)
        ensures
            req == (WaitRequest { pid: self.pid() }),
    {
        WaitRequest { pid: self.pid }
    }

    /// The wait that reaps this child. The value is spent by it.
    pub fn wait(self) -> (req: ReapRequest)
        ensures
            req == self.spec_wait(),
    {
        ReapRequest { pid: self.pid, command_line: self.command_line }
    }
}

} // verus!

//! The spawner: what each side of a `fork` has to do, and a flat registry of
//! the forked children by pid.

use crate::job_handle::ChildProcess;
use crate::process_manager::{ManagerState, ProcessManager};
use crate::request::{KillRequest, Pipe, ReapRequest, SysCall, WaitRequest, WaitStep};
use crate::result::{spec_code, spec_from_status, ExitStatus, ShellError};
use crate::shell_child::ShellChildCore;
use crate::sys::{
    last_errno, lemma_status_fields, spec_exit_code, spec_exited, EXIT_FELL_THROUGH, EXIT_PANICKED,
    SIGNAL_EXIT_BASE, SPAWN_REFUSED,
};
use std::collections::HashMap;
use vstd::prelude::*;
use vstd::std_specs::iter::IteratorSpec;

verus! {

broadcast use vstd::std_specs::hash::group_hash_axioms;

/// Where the standard output of a forked child goes.
#[derive(Debug, Clone, Copy, PartialEq, Eq, Structural)]
pub enum Redirect {
    /// To wherever the parent's goes.
    Inherit,
    /// Into a pipe that the parent reads.
    Capture,
}

/// What handling a terminating signal asks for: the `kill` for each child,
/// with the child's pid, and the code to exit with afterwards.
#[derive(Debug)]
pub struct Shutdown {
    pub kills: Vec<(i32, KillRequest)>,
    pub exit_code: i32,
}

/// What a `fork` came to, seen from the side that asks.
#[derive(Debug)]
pub enum Forked {
    /// This is the parent. The child is registered under `pid`; `calls` are
    /// to be made, in order, before the handle is handed on; `capture` is
    /// the descriptor the child's output can be read from; `displaced` is
    /// the reap of a child that was still registered under the same pid.
    Parent { pid: i32, capture: Option<i32>, calls: Vec<SysCall>, displaced: Option<ReapRequest> },
    /// This is the child. It owns none of the parent's children; `calls`
    /// are to be made, in order, before the requested work runs.
    Child { calls: Vec<SysCall> },
}

/// The calls the parent makes after a `fork`: it puts the child into a group
/// of its own if one was asked for, then closes the pipe ends it does not
/// read from. Last, if the child got a group and a signal to resume it with
/// was given, the child is sent that signal, in case the move to the new
/// group had it stopped.
pub open spec fn parent_calls(
    pid: i32,
    process_group: bool,
    resume: Option<i32>,
    stdout: Redirect,
    pipe: Pipe,
) -> Seq<SysCall> {
    let group = if process_group {
        seq![SysCall::SetPgid { pid, pgid: 0 }]
    } else {
        Seq::empty()
    };
    let ends = match stdout {
        Redirect::Capture => seq![SysCall::Close(pipe.write)],
        Redirect::Inherit => seq![SysCall::Close(pipe.read), SysCall::Close(pipe.write)],
    };
    let wake = match resume {
        Some(signal) => if process_group {
            seq![SysCall::Kill(KillRequest { target: pid, signal })]
        } else {
            Seq::empty()
        },
        None => Seq::empty(),
    };
    group + ends + wake
}

/// The descriptor the parent keeps for the child's output.
pub open spec fn parent_capture(stdout: Redirect, pipe: Pipe) -> Option<i32> {
    match stdout {
        Redirect::Capture => Some(pipe.read),
        Redirect::Inherit => None,
    }
}

/// The calls the child makes after a `fork`. A child that is to lead a
/// group settles its pipe ends and then makes itself the leader, which the
/// parent does for it as well, so that the group exists whichever side runs
/// first. A child without a group makes no call.
pub open spec fn child_calls(process_group: bool, stdout: Redirect, pipe: Pipe) -> Seq<SysCall> {
    if process_group {
        let ends = match stdout {
            Redirect::Capture => seq![
                SysCall::Close(pipe.read),
                SysCall::Dup2 { from: 1, to: pipe.write },
            ],
            Redirect::Inherit => seq![SysCall::Close(pipe.read), SysCall::Close(pipe.write)],
        };
        ends + seq![SysCall::SetPgid { pid: 0, pgid: 0 }]
    } else {
        Seq::empty()
    }
}

/// The code a child process exits with when its supervised work comes back
/// instead of ending the process: the reserved code if the work panicked,
/// and the plain failure code if it returned.
pub open spec fn spec_child_exit_code(panicked: bool) -> i32 {
    if panicked {
        EXIT_PANICKED
    } else {
        EXIT_FELL_THROUGH
    }
}

/// A panic in a child's work is contained and can be told apart. The child
/// exits with a code that is not zero and not the code of work that merely
/// came back; and the parent, reaping a child that exited with the reserved
/// code, sees a failure that carries that code.
pub proof fn lemma_panic_contained(command: String, status: ExitStatus)
    requires
        spec_exited(status.raw),
        spec_exit_code(status.raw) == EXIT_PANICKED,
    ensures
        spec_child_exit_code(true) == EXIT_PANICKED,
        spec_child_exit_code(true) != 0,
        spec_child_exit_code(true) != spec_child_exit_code(false),
        spec_from_status(command, status) == Err::<crate::result::SuccessfulExit, ShellError>(
            ShellError::Status(command, status),
        ),
        spec_code(spec_from_status(command, status)) == EXIT_PANICKED,
{
    lemma_status_fields(status.raw);
}

/// What a `SignalHandler` holds, as plain mathematics.
pub struct HandlerState {
    /// The live children, by pid.
    pub children: Map<i32, ShellChildCore>,
    /// Whether a terminating signal was handled.
    pub signaled: bool,
}

impl HandlerState {
    /// Every child is valid and registered under its own pid.
    pub open spec fn wf(self) -> bool {
        forall|pid: i32| #[trigger]
            self.children.contains_key(pid) ==> self.children[pid].inv()
                && self.children[pid].pid() == pid
    }

    /// The state of a registry that was just made.
    pub open spec fn empty() -> HandlerState {
        HandlerState { children: Map::empty(), signaled: false }
    }

    /// The live child under `pid`, if there is one.
    pub open spec fn find(self, pid: i32) -> Option<ShellChildCore> {
        if self.children.contains_key(pid) {
            Some(self.children[pid])
        } else {
            None
        }
    }

    /// What signalling the child under `pid` comes to.
    pub open spec fn signal(self, pid: i32, sig: i32) -> Result<KillRequest, ShellError> {
        match self.find(pid) {
            Some(core) => Ok(core.spec_signal(sig)),
            None => Err(ShellError::NoSuchProcess),
        }
    }

    /// What waiting without reaping on the child under `pid` comes to.
    pub open spec fn wait_null(self, pid: i32) -> Result<WaitRequest, ShellError> {
        match self.find(pid) {
            Some(core) => Ok(WaitRequest { pid: core.pid() }),
            None => Err(ShellError::NoSuchProcess),
        }
    }

    /// What reaping the child under `pid` comes to.
    pub open spec fn wait(self, pid: i32) -> Result<ReapRequest, ShellError> {
        match self.find(pid) {
            Some(core) => Ok(core.spec_wait()),
            None => Err(ShellError::NoSuchProcess),
        }
    }

    /// The state after the child under `pid` was taken out for reaping.
    pub open spec fn take(self, pid: i32) -> HandlerState {
        HandlerState { children: self.children.remove(pid), signaled: self.signaled }
    }

    /// The state in the parent after a `fork` returned `core`'s pid.
    pub open spec fn forked(self, core: ShellChildCore) -> HandlerState {
        HandlerState { children: self.children.insert(core.pid(), core), signaled: self.signaled }
    }

    /// The state in the child after a `fork`: it has no children.
    pub open spec fn in_child(self) -> HandlerState {
        HandlerState { children: Map::empty(), signaled: self.signaled }
    }

    /// The state after a trapped signal was handled.
    pub open spec fn handle_signal(self, signal: i32) -> HandlerState {
        if ManagerState::is_trapped(signal) {
            HandlerState { children: self.children, signaled: true }
        } else {
            self
        }
    }
}

/// The two sides of a fork part for good. The parent finds the new child
/// under its pid and every other child as before. The child finds nothing:
/// it owns none of the children of its parent. And a child that was taken
/// out to be reaped is found by nobody again.
pub proof fn lemma_fork_sides(h: HandlerState, core: ShellChildCore, pid: i32)
    requires
        h.wf(),
        core.inv(),
    ensures
        h.forked(core).wf(),
        h.forked(core).find(core.pid()) == Some(core),
        pid != core.pid() ==> h.forked(core).find(pid) == h.find(pid),
        h.in_child().wf(),
        h.in_child().find(pid) is None,
        h.take(pid).wf(),
        h.take(pid).find(pid) is None,
        h.take(pid).wait(pid) == Err::<ReapRequest, ShellError>(ShellError::NoSuchProcess),
{
}

/// Whether `out` holds, for every child exactly once, the `kill` that sends
/// it `sig`. The order of the children is open.
pub open spec fn signals_all(
    out: Seq<(i32, KillRequest)>,
    children: Map<i32, ShellChildCore>,
    sig: i32,
) -> bool {
    &&& Seq::new(out.len(), |i: int| out[i].0).no_duplicates()
    &&& Seq::new(out.len(), |i: int| out[i].0).to_set() == children.dom()
    &&& forall|i: int|
        0 <= i < out.len() ==> (#[trigger] out[i]).1 == children[out[i].0].spec_signal(sig)
}

/// Managing the children that were forked, by pid.
pub struct SignalHandler {
    children: HashMap<i32, ChildProcess>,
    signaled: bool,
}

impl View for SignalHandler {
    type V = HandlerState;

    closed spec fn view(&self) -> HandlerState {
        HandlerState {
            children: self.children@.map_values(|slot: ChildProcess| slot.child()->0),
            signaled: self.signaled,
        }
    }
}

impl SignalHandler {
    /// Every slot holds a valid child and stands under the child's pid.
    #[verifier::type_invariant]
    pub closed spec fn inv(self) -> bool {
        forall|pid: i32| #[trigger]
            self.children@.contains_key(pid) ==> {
                &&& self.children@[pid].child() is Some
                &&& self.children@[pid].child()->0.inv()
                &&& self.children@[pid].child()->0.pid() == pid
            }
    }

    /// What holds of every handler in running code.
    pub proof fn lemma_inv(&self)
        requires
            self.inv(),
        ensures
            self@.wf(),
    {
        assert forall|pid: i32| #[trigger]
            self@.children.contains_key(pid) implies self@.children[pid].inv()
            && self@.children[pid].pid() == pid by {
            assert(self.children@.contains_key(pid));
        }
    }

    /// A registry without children, before any signal.
    pub fn new() -> (handler: SignalHandler)
        ensures
            handler@ == HandlerState::empty(),
            handler.inv(),
    {
        let handler = SignalHandler { children: HashMap::new(), signaled: false };
        assert(handler@.children =~= Map::empty());
        handler
    }

    /// Whether a terminating signal was handled.
    pub fn signaled(&self) -> (b: bool)
        ensures
            b == self@.signaled,
    {
        self.signaled
    }

    /// Decides whether a child may be forked: not once a terminating signal
    /// was handled. The refusal reads as the command having ended on the
    /// reserved signal number.
    pub fn check_spawn(&self, command_line: &String) -> (r: Result<(), ShellError>)
        ensures
            r == (if self@.signaled {
                Err::<(), ShellError>(
                    ShellError::Status(
                        *command_line,
                        ExitStatus { raw: (128 + SPAWN_REFUSED) as i32 },
                    ),
                )
            } else {
                Ok::<(), ShellError>(())
            }),
    {
        if self.signaled {
            Err(ShellError::from_signal(command_line.clone(), SPAWN_REFUSED))
        } else {
            Ok(())
        }
    }

    /// The code a child process exits with when its supervised work comes
    /// back: it never returns into the caller's code.
    pub fn child_exit_code(panicked: bool) -> (code: i32)
        ensures
            code == spec_child_exit_code(panicked),
            code != 0,
    {
        if panicked {
            EXIT_PANICKED
        } else {
            EXIT_FELL_THROUGH
        }
    }

    /// Takes in what `fork` returned and says what this side does next.
    ///
    /// A negative value is a failed fork: it is reported with the error the
    /// call left, and nothing is registered. Zero is the child: it forgets
    /// every child of the parent and gets the calls to make before its work.
    /// A positive value is the parent: the new child is registered under
    /// that pid, as the leader of its own group if one was asked for, and
    /// the parent gets its calls and the descriptor to read from. With a
    /// signal in `resume` a child that got a group is sent that signal once
    /// everything else is done.
    pub fn fork(
        &mut self,
        returned: i32,
        command_line: String,
        process_group: bool,
        resume: Option<i32>,
        stdout: Redirect,
        pipe: Pipe,
    ) -> (r: Result<Forked, ShellError>)
        ensures
            final(self).inv(),
            returned < 0 ==> final(self)@ == old(self)@ && r is Err && r->Err_0 is Errno
                && r->Err_0->Errno_0 == "fork",
            returned == 0 ==> final(self)@ == old(self)@.in_child() && r is Ok && r->Ok_0 is Child
                && r->Ok_0->Child_calls@ == child_calls(process_group, stdout, pipe),
            returned > 0 ==> {
                &&& r matches Ok(Forked::Parent { pid, capture, calls, displaced })
                &&& pid == returned
                &&& capture == parent_capture(stdout, pipe)
                &&& calls@ == parent_calls(returned, process_group, resume, stdout, pipe)
                &&& displaced == (match old(self)@.find(returned) {
                    Some(core) => Some(core.spec_wait()),
                    None => None,
                })
                &&& final(self)@ == old(self)@.forked(
                    ShellChildCore::spec_new(command_line, returned, process_group),
                )
            },
    {
        proof {
            use_type_invariant(&*self);
        }
        if returned < 0 {
            return Err(ShellError::Errno("fork", last_errno()));
        }
        let mut children: HashMap<i32, ChildProcess> = HashMap::new();
        std::mem::swap(&mut self.children, &mut children);
        if returned == 0 {
            assert(self@.children =~= old(self)@.in_child().children);
            let mut calls: Vec<SysCall> = Vec::new();
            if process_group {
                match stdout {
                    Redirect::Capture => {
                        calls.push(SysCall::Close(pipe.read));
                        calls.push(SysCall::Dup2 { from: 1, to: pipe.write });
                    },
                    Redirect::Inherit => {
                        calls.push(SysCall::Close(pipe.read));
                        calls.push(SysCall::Close(pipe.write));
                    },
                }
                calls.push(SysCall::SetPgid { pid: 0, pgid: 0 });
            }
            assert(calls@ =~= child_calls(process_group, stdout, pipe));
            return Ok(Forked::Child { calls });
        }
        let mut calls: Vec<SysCall> = Vec::new();
        if process_group {
            calls.push(SysCall::SetPgid { pid: returned, pgid: 0 });
        }
        let core = ShellChildCore::new(command_line, returned, process_group);
        let ghost registered = core;
        let displaced = match children.insert(returned, ChildProcess::new(core)) {
            Some(mut slot) => slot.release(),
            None => None,
        };
        let capture = match stdout {
            Redirect::Capture => {
                calls.push(SysCall::Close(pipe.write));
                Some(pipe.read)
            },
            Redirect::Inherit => {
                calls.push(SysCall::Close(pipe.read));
                calls.push(SysCall::Close(pipe.write));
                None
            },
        };
        if process_group {
            if let Some(signal) = resume {
                calls.push(SysCall::Kill(KillRequest { target: returned, signal }));
            }
        }
        self.children = children;
        assert(calls@ =~= parent_calls(returned, process_group, resume, stdout, pipe));
        assert(self@.children =~= old(self)@.forked(registered).children);
        Ok(Forked::Parent { pid: returned, capture, calls, displaced })
    }

    /// The `kill` that sends `signal` to the child under `pid`.
    pub fn signal(&self, pid: i32, signal: i32) -> (r: Result<KillRequest, ShellError>)
        ensures
            r == self@.signal(pid, signal),
    {
        proof {
            use_type_invariant(self);
        }
        match self.children.get(&pid) {
            Some(slot) => slot.signal(signal),
            None => Err(ShellError::NoSuchProcess),
        }
    }

    /// The wait that blocks until the child under `pid` has exited. The
    /// child stays registered, so it can still be signaled.
    pub fn wait_null(&self, pid: i32) -> (r: Result<WaitRequest, ShellError>)
        ensures
            r == self@.wait_null(pid),
    {
        proof {
            use_type_invariant(self);
        }
        match self.children.get(&pid) {
            Some(slot) => slot.wait_null(),
            None => Err(ShellError::NoSuchProcess),
        }
    }

    /// Takes the child under `pid` out of the registry and hands back the
    /// wait that reaps it.
    pub fn wait(&mut self, pid: i32) -> (r: Result<ReapRequest, ShellError>)
        ensures
            final(self)@ == old(self)@.take(pid),
            r == old(self)@.wait(pid),
            final(self).inv(),
    {
        proof {
            use_type_invariant(&*self);
        }
        let mut children: HashMap<i32, ChildProcess> = HashMap::new();
        std::mem::swap(&mut self.children, &mut children);
        let removed = children.remove(&pid);
        self.children = children;
        assert(self@.children =~= old(self)@.take(pid).children);
        match removed {
            Some(mut slot) => slot.wait_mut(),
            None => Err(ShellError::NoSuchProcess),
        }
    }

    /// Starts a wait for the child under `pid`: the first step is to block
    /// until the child has exited, unless there is no such child any more.
    pub fn begin_wait(&self, pid: i32) -> (step: WaitStep)
        ensures
            step == WaitStep::of_peek(self@.wait_null(pid)),
    {
        match self.wait_null(pid) {
            Ok(request) => WaitStep::Peek(request),
            Err(error) => WaitStep::Done(Err(error)),
        }
    }

    /// Goes on with a wait after the blocking call was made and read. If
    /// the call failed the wait is over with its error and the child stays
    /// registered. Otherwise the child is taken out of the registry and the
    /// next step is its reap, unless somebody else got there first.
    pub fn after_peek(&mut self, pid: i32, peeked: Result<(), ShellError>) -> (step: WaitStep)
        ensures
            final(self).inv(),
            match peeked {
                Err(error) => final(self)@ == old(self)@ && step == WaitStep::Done(Err(error)),
                Ok(_) => final(self)@ == old(self)@.take(pid) && step == WaitStep::of_take(
                    old(self)@.wait(pid),
                ),
            },
    {
        proof {
            use_type_invariant(&*self);
        }
        match peeked {
            Err(error) => WaitStep::Done(Err(error)),
            Ok(_) => match self.wait(pid) {
                Ok(request) => WaitStep::Reap(request),
                Err(error) => WaitStep::Done(Err(error)),
            },
        }
    }

    /// The pids of the registered children, each once, in no particular
    /// order.
    pub fn pids(&self) -> (pids: Vec<i32>)
        ensures
            pids@.no_duplicates(),
            pids@.to_set() == self@.children.dom(),
    {
        let mut pids: Vec<i32> = Vec::new();
        let ghost all: Seq<i32> = self.children.keys().remaining().unref();
        for pid in it: self.children.keys()
            invariant
                all == it.seq().unref(),
                pids@ == all.take(it.index()),
        {
            pids.push(*pid);
        }
        assert(pids@ == all);
        assert(self@.children.dom() =~= self.children@.dom());
        pids
    }

    /// Handles a trapped signal: from now on nothing is forked, every child
    /// gets the signal, and the program exits with 128 plus the signal's
    /// number. The `kill`s come with the pid of the child each is for. A
    /// signal that is not trapped is not handled.
    pub fn handle_signal(&mut self, signal: i32) -> (r: Option<Shutdown>)
        ensures
            final(self)@ == old(self)@.handle_signal(signal),
            final(self).inv(),
            ManagerState::is_trapped(signal) ==> {
                &&& r matches Some(shutdown)
                &&& signals_all(shutdown.kills@, old(self)@.children, signal)
                &&& shutdown.exit_code == 128 + signal
            },
            !ManagerState::is_trapped(signal) ==> r is None,
    {
        proof {
            use_type_invariant(&*self);
        }
        if !ProcessManager::is_trapped(signal) {
            return None;
        }
        let pids = self.pids();
        let mut out: Vec<(i32, KillRequest)> = Vec::new();
        let mut i: usize = 0;
        while i < pids.len()
            invariant
                i <= pids.len(),
                out.len() == i,
                self.inv(),
                self@ == old(self)@,
                pids@.to_set() == self@.children.dom(),
                forall|j: int|
                    0 <= j < i ==> (#[trigger] out@[j]).0 == pids@[j] && out@[j].1
                        == self@.children[pids@[j]].spec_signal(signal),
            decreases pids.len() - i,
        {
            let pid = pids[i];
            assert(pids@.to_set().contains(pids@[i as int]));
            if let Ok(request) = self.signal(pid, signal) {
                out.push((pid, request));
            }
            i += 1;
        }
        self.signaled = true;
        proof {
            assert(Seq::new(out@.len(), |k: int| out@[k].0) =~= pids@);
        }
        Some(Shutdown { kills: out, exit_code: SIGNAL_EXIT_BASE + signal })
    }
}

} // verus!

//! The slot that holds a child until it is reaped, and the handle by which
//! a registered job is named.

use crate::process_manager::{ManagerState, ProcessManager};
use crate::request::{KillRequest, ReapRequest, WaitRequest, WaitStep};
use crate::result::{ok, spec_from_status, ExitStatus, ShellError, ShellResult, SuccessfulExit};
use crate::shell_child::ShellChildCore;
use crate::sys::{sigterm_number, spec_sigterm};
use vstd::prelude::*;

verus! {

/// A slot that holds a live child, or nothing once the child was reaped.
///
/// The step from live to reaped is taken once, by `wait_mut` or `release`,
/// and hands out the only reap the process will ever get. After it every
/// operation answers that there is no such process, and no pid is touched.
#[derive(Debug)]
pub struct ChildProcess(Option<ShellChildCore>);

impl ChildProcess {
    /// The live child, if the slot still holds one.
    pub closed spec fn child(self) -> Option<ShellChildCore> {
        self.0
    }

    /// Whether the slot still holds its child.
    pub open spec fn is_live(self) -> bool {
        self.child() is Some
    }

    /// What `signal` returns.
    pub open spec fn spec_signal(self, sig: i32) -> Result<KillRequest, ShellError> {
        match self.child() {
            Some(core) => Ok(core.spec_signal(sig)),
            None => Err(ShellError::NoSuchProcess),
        }
    }

    /// What `wait_null` returns.
    pub open spec fn spec_wait_null(self) -> Result<WaitRequest, ShellError> {
        match self.child() {
            Some(core) => Ok(WaitRequest { pid: core.pid() }),
            None => Err(ShellError::NoSuchProcess),
        }
    }

    /// What `wait_mut` returns.
    pub open spec fn spec_wait_mut(self) -> Result<ReapRequest, ShellError> {
        match self.child() {
            Some(core) => Ok(core.spec_wait()),
            None => Err(ShellError::NoSuchProcess),
        }
    }

    /// A slot for a child that was just started.
    pub fn new(core: ShellChildCore) -> (slot: ChildProcess)
        ensures
            slot.child() == Some(core),
    {
        ChildProcess(Some(core))
    }

    /// Whether the slot still holds its child.
    pub fn live(&self) -> (b: bool)
        ensures
            b == self.is_live(),
    {
        self.0.is_some()
    }

    /// Marks the child as the leader of its own process group, or not. An
    /// empty slot stays empty.
    pub fn set_has_group(&mut self, value: bool)
        ensures
            final(self).is_live() == old(self).is_live(),
            old(self).child() matches Some(before) ==> {
                let after = final(self).child()->0;
                &&& after.inv()
                &&& after.has_group() == value
                &&& after.pid() == before.pid()
                &&& after.command_line() == before.command_line()
            },
    {
        let mut taken: Option<ShellChildCore> = None;
        std::mem::swap(&mut self.0, &mut taken);
        match taken {
            Some(mut core) => {
                core.set_has_group(value);
                self.0 = Some(core);
            },
            None => {},
        }
    }

    /// The `kill` that sends `sig` to the child, or `NoSuchProcess` if it was
    /// reaped.
    pub fn signal(&self, sig: i32) -> (r: Result<KillRequest, ShellError>)
        ensures
            r == self.spec_signal(sig),
    {
        match &self.0 {
            Some(core) => Ok(core.signal(sig)),
            None => Err(ShellError::NoSuchProcess),
        }
    }

    /// The wait that blocks until the child has exited without reaping it,
    /// or `NoSuchProcess` if it was reaped. The slot is left as it is.
    pub fn wait_null(&self) -> (r: Result<WaitRequest, ShellError>)
        ensures
            r == self.spec_wait_null(),
    {
        match &self.0 {
            Some(core) => Ok(core.wait_null()),
            None => Err(ShellError::NoSuchProcess),
        }
    }

    /// Empties the slot and hands back the wait that reaps the child, or
    /// `NoSuchProcess` if the slot was empty.
    pub fn wait_mut(&mut self) -> (r: Result<ReapRequest, ShellError>)
        ensures
            final(self).child() is None,
            r == old(self).spec_wait_mut(),
    {
        let mut taken: Option<ShellChildCore> = None;
        std::mem::swap(&mut self.0, &mut taken);
        match taken {
            Some(core) => Ok(core.wait()),
            None => Err(ShellError::NoSuchProcess),
        }
    }

    /// What is left to do when the slot is given up: the reap of a child
    /// that nobody waited for, and nothing where that was done.
    pub fn release(&mut self) -> (r: Option<ReapRequest>)
        ensures
            final(self).child() is None,
            r == (match old(self).child() {
                Some(core) => Some(core.spec_wait()),
                None => None,
            }),
    {
        match self.wait_mut() {
            Ok(request) => Some(request),
            Err(_) => None,
        }
    }
}

/// The name of a registered job: the scope it was spawned in and the id it
/// got there. A handle can be copied; all copies name the same job, and once
/// one of them has reaped it the others find nothing.
#[derive(Debug, Clone, Copy, PartialEq, Eq, Structural)]
pub struct JobHandle {
    pub thread: u64,
    pub id: u64,
}

/// What `settle_terminate` returns: a command that ended, however it ended,
/// counts as terminated; an error that is not about how it ended stays.
pub open spec fn spec_settle_terminate(result: ShellResult) -> ShellResult {
    match result {
        Ok(exit) => Ok(exit),
        Err(ShellError::Status(_, _)) => Ok(SuccessfulExit::unit()),
        Err(error) => Err(error),
    }
}

impl JobHandle {
    /// Registers a child that was just spawned on `thread` and names it.
    /// The scope must have an id left to give, which `is_full` tells.
    pub fn new(manager: &mut ProcessManager, thread: u64, core: ShellChildCore) -> (handle:
        JobHandle)
        requires
            !old(manager)@.is_full(thread),
        ensures
            final(manager)@ == old(manager)@.register(thread, core),
            handle == old(manager)@.next_handle(thread),
            final(manager).inv(),
    {
        manager.add_process(thread, core)
    }

    /// The `kill` that sends `signal` to the job, or `NoSuchProcess` if it
    /// was reaped. The registry is only read, so signals can be sent while
    /// somebody waits for the job to exit.
    pub fn signal(&self, manager: &ProcessManager, signal: i32) -> (r: Result<
        KillRequest,
        ShellError,
    >)
        ensures
            r == manager@.signal(*self, signal),
    {
        match manager.local_shell(self.thread) {
            Some(shell) => shell.signal_process(self.id, signal),
            None => Err(ShellError::NoSuchProcess),
        }
    }

    /// The first half of a wait: the request that blocks until the job has
    /// exited and leaves it unreaped, or `NoSuchProcess` if it was reaped.
    /// The registry is only read and the job stays a valid target.
    pub fn wait_null(&self, manager: &ProcessManager) -> (r: Result<WaitRequest, ShellError>)
        ensures
            r == manager@.wait_null(*self),
    {
        match manager.local_shell(self.thread) {
            Some(shell) => shell.wait_null_process(self.id),
            None => Err(ShellError::NoSuchProcess),
        }
    }

    /// The second half of a wait: takes the job out of the registry and
    /// hands back the request that reaps it. Of all the copies of a handle
    /// the first to get here gets the reap; the others, and every later
    /// signal, get `NoSuchProcess`.
    pub fn wait(self, manager: &mut ProcessManager) -> (r: Result<ReapRequest, ShellError>)
        ensures
            final(manager)@ == old(manager)@.take(self),
            r == old(manager)@.wait(self),
            final(manager).inv(),
    {
        match manager.remove_process(self) {
            Some(core) => Ok(core.wait()),
            None => Err(ShellError::NoSuchProcess),
        }
    }

    /// Starts a wait for the job: the first step is to block until the job
    /// has exited, unless there is no such job any more.
    pub fn begin_wait(&self, manager: &ProcessManager) -> (step: WaitStep)
        ensures
            step == WaitStep::of_peek(manager@.wait_null(*self)),
    {
        match self.wait_null(manager) {
            Ok(request) => WaitStep::Peek(request),
            Err(error) => WaitStep::Done(Err(error)),
        }
    }

    /// Goes on with a wait after the blocking call was made and read. If
    /// the call failed the wait is over with its error and the job stays
    /// registered. Otherwise the job is taken out of the registry and the
    /// next step is its reap, unless another holder of the handle got there
    /// first.
    pub fn after_peek(self, manager: &mut ProcessManager, peeked: Result<(), ShellError>) -> (step:
        WaitStep)
        ensures
            final(manager).inv(),
            match peeked {
                Err(error) => final(manager)@ == old(manager)@ && step == WaitStep::Done(
                    Err(error),
                ),
                Ok(_) => final(manager)@ == old(manager)@.take(self) && step == WaitStep::of_take(
                    old(manager)@.wait(self),
                ),
            },
    {
        proof {
            use_type_invariant(&*manager);
        }
        match peeked {
            Err(error) => WaitStep::Done(Err(error)),
            Ok(_) => match self.wait(manager) {
                Ok(request) => WaitStep::Reap(request),
                Err(error) => WaitStep::Done(Err(error)),
            },
        }
    }

    /// The `kill` that asks the job to terminate. The caller sends it and
    /// then waits for the job as usual.
    pub fn terminate(&self, manager: &ProcessManager) -> (r: Result<KillRequest, ShellError>)
        ensures
            r == manager@.signal(*self, spec_sigterm()),
    {
        self.signal(manager, sigterm_number())
    }

    /// Reads the result of the wait that followed a `terminate`. That the
    /// job exited with a failure code or died of the signal is what was
    /// asked for, and counts as success. Errors of the system calls stay
    /// errors.
    pub fn settle_terminate(result: ShellResult) -> (r: ShellResult)
        ensures
            r == spec_settle_terminate(result),
    {
        match result {
            Ok(exit) => Ok(exit),
            Err(ShellError::Status(_, _)) => ok(),
            Err(error) => Err(error),
        }
    }

    /// What is left to do when a handle is given up: the reap of the job, if
    /// nobody has waited for it, and nothing otherwise. The job leaves the
    /// registry either way, so no child outlives its last handle unreaped.
    pub fn release(self, manager: &mut ProcessManager) -> (r: Option<ReapRequest>)
        ensures
            final(manager)@ == old(manager)@.take(self),
            r == (match old(manager)@.find(self) {
                Some(core) => Some(core.spec_wait()),
                None => None,
            }),
            final(manager).inv(),
    {
        match manager.remove_process(self) {
            Some(core) => Some(core.wait()),
            None => None,
        }
    }
}

/// A job is reaped at most once. Whatever a first wait through a handle
/// returned, the job is gone after it: a second wait, through this or any
/// copy of the handle, returns `NoSuchProcess`, and so does every signal and
/// every wait without reaping. The first wait succeeds if the job was live.
pub proof fn lemma_reap_at_most_once(m: ManagerState, handle: JobHandle, sig: i32)
    requires
        m.wf(),
    ensures
        m.find(handle) is Some ==> m.wait(handle) is Ok,
        m.take(handle).wf(),
        m.take(handle).find(handle) is None,
        m.take(handle).wait(handle) == Err::<ReapRequest, ShellError>(ShellError::NoSuchProcess),
        m.take(handle).signal(handle, sig) == Err::<KillRequest, ShellError>(
            ShellError::NoSuchProcess,
        ),
        m.take(handle).wait_null(handle) == Err::<WaitRequest, ShellError>(
            ShellError::NoSuchProcess,
        ),
{
    if m.scopes.contains_key(handle.thread) {
        m.scopes[handle.thread].lemma_wf_steps(handle.id, arbitrary());
        assert(m.take(handle).scopes[handle.thread] == m.scopes[handle.thread].remove(handle.id));
    }
}

/// A job that was spawned and not waited for is live under its handle.
/// Giving the handle up then asks for the reap of exactly that child and
/// leaves nothing of it in the registry, so no job outlives its handle
/// unreaped.
pub proof fn lemma_release_reaps(m: ManagerState, thread: u64, core: ShellChildCore)
    requires
        m.wf(),
        !m.is_full(thread),
        core.inv(),
    ensures
        m.register(thread, core).wf(),
        m.register(thread, core).find(m.next_handle(thread)) == Some(core),
        m.register(thread, core).wait(m.next_handle(thread)) == Ok::<ReapRequest, ShellError>(
            core.spec_wait(),
        ),
        m.register(thread, core).take(m.next_handle(thread)).find(m.next_handle(thread)) is None,
{
    let opened = m.add_scope(thread);
    let scope = opened.scopes[thread];
    assert(scope.wf());
    scope.lemma_wf_steps(0, core);
    let after = m.register(thread, core);
    assert(after.scopes[thread] == scope.add(core));
    assert forall|other: u64| #[trigger]
        after.scopes.contains_key(other) implies after.scopes[other].wf() by {
        if other != thread {
            assert(m.scopes.contains_key(other));
        }
    }
    lemma_reap_at_most_once(after, m.next_handle(thread), 0);
}

/// While one holder of a handle waits for the job to exit, the others can
/// signal it: the wait without reaping leaves the registry as it is, so as
/// long as it can be asked for, a signal gets its `kill`. Nor does the reap
/// of one job take anything from another.
pub proof fn lemma_signal_while_waiting(
    m: ManagerState,
    handle: JobHandle,
    other: JobHandle,
    sig: i32,
)
    requires
        m.wf(),
    ensures
        m.wait_null(handle) is Ok <==> m.signal(handle, sig) is Ok,
        m.wait_null(handle) is Ok <==> m.find(handle) is Some,
        other != handle ==> m.take(other).signal(handle, sig) == m.signal(handle, sig),
{
    if other != handle && m.scopes.contains_key(other.thread) {
        if other.thread == handle.thread {
            m.scopes[other.thread].lemma_remove_other(other.id, handle.id);
        }
    }
}

/// Terminating a process that has exited already succeeds: whatever status
/// the reap finds, a normal exit included, the terminate settles to `Ok`.
pub proof fn lemma_terminate_accepts_any_end(command: String, status: ExitStatus)
    ensures
        spec_settle_terminate(spec_from_status(command, status)) is Ok,
        spec_settle_terminate(Ok(SuccessfulExit::unit())) is Ok,
{
}

} // verus!

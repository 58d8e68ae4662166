//! The registry of the jobs that one thread of control answers for.

use crate::process_manager::ProcessManager;
use crate::request::{KillRequest, ReapRequest, WaitRequest};
use crate::result::{ExitStatus, ShellError};
use crate::shell_child::ShellChildCore;
use crate::sys::{sigterm_number, spec_sigterm, SPAWN_REFUSED};
use vstd::prelude::*;

verus! {

/// A registered job: a live child under the id it was registered with.
#[derive(Debug, PartialEq, Eq)]
pub struct Job {
    pub id: u64,
    pub core: ShellChildCore,
}

/// What a `LocalShell` holds, as plain mathematics.
pub struct ShellState {
    /// The registered jobs, in the order they were spawned.
    pub jobs: Seq<Job>,
    /// Whether a terminating signal has reached this scope.
    pub signaled: bool,
    /// The id the next job will get. Ids are handed out in rising order and
    /// never again, so an id that has left the registry stays dead.
    pub next_id: nat,
}

impl ShellState {
    /// Every job holds a valid child under an id that was handed out, and no
    /// two jobs share an id.
    pub open spec fn wf(self) -> bool {
        &&& self.next_id <= u64::MAX
        &&& forall|i: int|
            0 <= i < self.jobs.len() ==> (#[trigger] self.jobs[i]).id < self.next_id
                && self.jobs[i].core.inv()
        &&& forall|i: int, j: int|
            0 <= i < j < self.jobs.len() ==> (#[trigger] self.jobs[i]).id != (
            #[trigger] self.jobs[j]).id
    }

    /// The state of a scope that was just opened.
    pub open spec fn empty() -> ShellState {
        ShellState { jobs: Seq::empty(), signaled: false, next_id: 0 }
    }

    /// Whether a job is registered under `id`.
    pub open spec fn has(self, id: u64) -> bool {
        exists|i: int| 0 <= i < self.jobs.len() && (#[trigger] self.jobs[i]).id == id
    }

    /// The position of the job registered under `id`.
    pub open spec fn slot(self, id: u64) -> int {
        choose|i: int| 0 <= i < self.jobs.len() && (#[trigger] self.jobs[i]).id == id
    }

    /// The child registered under `id`, if there is one.
    pub open spec fn find(self, id: u64) -> Option<ShellChildCore> {
        if self.has(id) {
            Some(self.jobs[self.slot(id)].core)
        } else {
            None
        }
    }

    /// Whether the supply of ids is used up.
    pub open spec fn is_full(self) -> bool {
        self.next_id >= u64::MAX
    }

    /// The state after `core` was registered. The new job goes to the end
    /// and gets the next id.
    pub open spec fn add(self, core: ShellChildCore) -> ShellState {
        ShellState {
            jobs: self.jobs.push(Job { id: self.next_id as u64, core }),
            signaled: self.signaled,
            next_id: self.next_id + 1,
        }
    }

    /// The state after the job under `id` was taken out. Nothing changes if
    /// there is none.
    pub open spec fn remove(self, id: u64) -> ShellState {
        if self.has(id) {
            ShellState {
                jobs: self.jobs.remove(self.slot(id)),
                signaled: self.signaled,
                next_id: self.next_id,
            }
        } else {
            self
        }
    }

    /// The state after a signal was delivered to the scope.
    pub open spec fn signal(self) -> ShellState {
        ShellState { jobs: self.jobs, signaled: true, next_id: self.next_id }
    }

    /// The state after every job was handed out for reaping.
    pub open spec fn drained(self) -> ShellState {
        ShellState { jobs: Seq::empty(), signaled: self.signaled, next_id: self.next_id }
    }

    /// One `kill` per registered job, in spawn order.
    pub open spec fn kill_requests(self, sig: i32) -> Seq<KillRequest> {
        Seq::new(self.jobs.len(), |i: int| self.jobs[i].core.spec_signal(sig))
    }

    /// One reap per registered job, in spawn order.
    pub open spec fn reap_requests(self) -> Seq<ReapRequest> {
        Seq::new(self.jobs.len(), |i: int| self.jobs[i].core.spec_wait())
    }

    /// What signalling the job under `id` comes to.
    pub open spec fn signal_process(self, id: u64, sig: i32) -> Result<KillRequest, ShellError> {
        match self.find(id) {
            Some(core) => Ok(core.spec_signal(sig)),
            None => Err(ShellError::NoSuchProcess),
        }
    }

    /// What waiting without reaping on the job under `id` comes to.
    pub open spec fn wait_null_process(self, id: u64) -> Result<WaitRequest, ShellError> {
        match self.find(id) {
            Some(core) => Ok(WaitRequest { pid: core.pid() }),
            None => Err(ShellError::NoSuchProcess),
        }
    }

    /// What reaping the job under `id` comes to.
    pub open spec fn wait_process(self, id: u64) -> Result<ReapRequest, ShellError> {
        match self.find(id) {
            Some(core) => Ok(core.spec_wait()),
            None => Err(ShellError::NoSuchProcess),
        }
    }

    /// In a well-formed state a job is found at the one position that holds
    /// its id.
    pub proof fn lemma_slot(self, id: u64, i: int)
        requires
            self.wf(),
            0 <= i < self.jobs.len(),
            self.jobs[i].id == id,
        ensures
            self.has(id),
            self.slot(id) == i,
            self.find(id) == Some(self.jobs[i].core),
    {
        let k = self.slot(id);
        assert(self.jobs[k].id == id);
        if k < i {
            assert(self.jobs[k].id != self.jobs[i].id);
        } else if i < k {
            assert(self.jobs[i].id != self.jobs[k].id);
        }
    }

    /// Registering, removing, signalling and draining keep a state
    /// well-formed; a removed or drained id is gone; a new id is found.
    pub proof fn lemma_wf_steps(self, id: u64, core: ShellChildCore)
        requires
            self.wf(),
        ensures
            self.signal().wf(),
            self.drained().wf(),
            self.remove(id).wf(),
            !self.remove(id).has(id),
            !self.drained().has(id),
            !self.is_full() && core.inv() ==> self.add(core).wf() && self.add(core).find(
                self.next_id as u64,
            ) == Some(core),
            id >= self.next_id ==> !self.has(id),
    {
        if self.has(id) {
            let k = self.slot(id);
            let after = self.remove(id);
            assert forall|i: int| 0 <= i < after.jobs.len() implies (#[trigger] after.jobs[i]).id
                != id && after.jobs[i].id < after.next_id && after.jobs[i].core.inv() by {
                if i < k {
                    assert(after.jobs[i] == self.jobs[i]);
                } else {
                    assert(after.jobs[i] == self.jobs[i + 1]);
                }
            }
            assert forall|i: int, j: int| 0 <= i < j < after.jobs.len() implies (
            #[trigger] after.jobs[i]).id != (#[trigger] after.jobs[j]).id by {
                let a = if i < k { i } else { i + 1 };
                let b = if j < k { j } else { j + 1 };
                assert(after.jobs[i] == self.jobs[a]);
                assert(after.jobs[j] == self.jobs[b]);
            }
        }
        if !self.is_full() && core.inv() {
            let after = self.add(core);
            let n = self.jobs.len() as int;
            assert(after.jobs[n].id == self.next_id as u64);
            assert forall|i: int| 0 <= i < after.jobs.len() implies (#[trigger] after.jobs[i]).id
                < after.next_id && after.jobs[i].core.inv() by {
                if i < n {
                    assert(after.jobs[i] == self.jobs[i]);
                }
            }
            assert forall|i: int, j: int| 0 <= i < j < after.jobs.len() implies (
            #[trigger] after.jobs[i]).id != (#[trigger] after.jobs[j]).id by {
                assert(after.jobs[i] == self.jobs[i]);
                if j < n {
                    assert(after.jobs[j] == self.jobs[j]);
                }
            }
            after.lemma_slot(self.next_id as u64, n);
        }
    }

    /// Taking one job out leaves every other job as it was.
    pub proof fn lemma_remove_other(self, id: u64, other: u64)
        requires
            self.wf(),
            id != other,
        ensures
            self.remove(id).find(other) == self.find(other),
    {
        self.lemma_wf_steps(id, arbitrary());
        if self.has(id) {
            let k = self.slot(id);
            let after = self.remove(id);
            if self.has(other) {
                let j = self.slot(other);
                self.lemma_slot(other, j);
                let moved = if j < k {
                    j
                } else {
                    j - 1
                };
                assert(after.jobs[moved] == self.jobs[j]);
                after.lemma_slot(other, moved);
            } else {
                if after.has(other) {
                    let i = after.slot(other);
                    let origin = if i < k {
                        i
                    } else {
                        i + 1
                    };
                    assert(after.jobs[i] == self.jobs[origin]);
                    assert(self.jobs[origin].id == other);
                }
            }
        }
    }

    /// Registering a job leaves every job that was there as it was, and a
    /// signal changes no job.
    pub proof fn lemma_add_keeps(self, core: ShellChildCore, other: u64)
        requires
            self.wf(),
            !self.is_full(),
            core.inv(),
            other != self.next_id,
        ensures
            self.add(core).find(other) == self.find(other),
            self.signal().find(other) == self.find(other),
    {
        self.lemma_wf_steps(other, core);
        let after = self.add(core);
        if self.has(other) {
            let j = self.slot(other);
            self.lemma_slot(other, j);
            assert(after.jobs[j] == self.jobs[j]);
            after.lemma_slot(other, j);
        } else {
            if after.has(other) {
                let i = after.slot(other);
                if i < self.jobs.len() {
                    assert(after.jobs[i] == self.jobs[i]);
                }
            }
        }
        self.lemma_signal_keeps(other);
    }

    /// A signal changes no job, and a drain leaves none.
    pub proof fn lemma_signal_keeps(self, id: u64)
        requires
            self.wf(),
        ensures
            self.signal().find(id) == self.find(id),
            self.drained().find(id) is None,
    {
        let after = self.signal();
        if self.has(id) {
            let j = self.slot(id);
            self.lemma_slot(id, j);
            assert(after.jobs[j] == self.jobs[j]);
            after.lemma_slot(id, j);
        } else if after.has(id) {
            let i = after.slot(id);
            assert(self.jobs[i].id == id);
        }
    }
}

/// Thread local shell: the jobs spawned on one thread of control, and
/// whether a terminating signal has reached it.
#[derive(Debug)]
pub struct LocalShell {
    processes: Vec<Job>,
    signaled: bool,
    next_id: u64,
}

impl View for LocalShell {
    type V = ShellState;

    closed spec fn view(&self) -> ShellState {
        ShellState {
            jobs: self.processes@,
            signaled: self.signaled,
            next_id: self.next_id as nat,
        }
    }
}

impl LocalShell {
    /// The state behind a shell is well-formed.
    #[verifier::type_invariant]
    pub closed spec fn inv(self) -> bool {
        self@.wf()
    }

    /// What holds of every shell in running code.
    pub proof fn lemma_inv(&self)
        requires
            self.inv(),
        ensures
            self@.wf(),
    {
    }

    /// An empty scope that no signal has reached.
    pub fn new() -> (shell: LocalShell)
        ensures
            shell@ == ShellState::empty(),
            shell.inv(),
    {
        LocalShell { processes: Vec::new(), signaled: false, next_id: 0 }
    }

    /// An empty scope that is signaled from the start if `signaled` says so:
    /// one opened while the program is shutting down.
    pub fn starting(signaled: bool) -> (shell: LocalShell)
        ensures
            shell@ == (ShellState { jobs: Seq::empty(), signaled, next_id: 0 }),
            shell.inv(),
    {
        LocalShell { processes: Vec::new(), signaled, next_id: 0 }
    }

    /// Whether a terminating signal has reached this scope. A scope that was
    /// signaled takes no new jobs.
    pub fn signaled(&self) -> (b: bool)
        ensures
            b == self@.signaled,
    {
        self.signaled
    }

    /// Whether the supply of job ids is used up.
    pub fn is_full(&self) -> (b: bool)
        ensures
            b == self@.is_full(),
    {
        self.next_id == u64::MAX
    }

    /// The number of registered jobs.
    pub fn len(&self) -> (n: usize)
        ensures
            n == self@.jobs.len(),
    {
        self.processes.len()
    }

    /// Decides whether a command may be spawned in this scope: it may not
    /// once the scope has been signaled. The refusal reads as the command
    /// having ended on the reserved signal number.
    pub fn check_spawn(&self, command_line: &String) -> (r: Result<(), ShellError>)
        ensures
            r == (if self@.signaled {
                Err::<(), ShellError>(
                    ShellError::Status(
                        *command_line,
                        ExitStatus { raw: (128 + SPAWN_REFUSED) as i32 },
                    ),
                )
            } else {
                Ok::<(), ShellError>(())
            }),
    {
        if self.signaled {
            Err(ShellError::from_signal(command_line.clone(), SPAWN_REFUSED))
        } else {
            Ok(())
        }
    }

    fn position(&self, id: u64) -> (r: Option<usize>)
        ensures
            match r {
                Some(i) => i < self@.jobs.len() && self@.jobs[i as int].id == id && self@.has(id)
                    && self@.slot(id) == i,
                None => !self@.has(id),
            },
    {
        proof {
            use_type_invariant(self);
        }
        let mut i: usize = 0;
        while i < self.processes.len()
            invariant
                i <= self.processes.len(),
                forall|k: int| 0 <= k < i ==> (#[trigger] self.processes@[k]).id != id,
                self@.wf(),
                self@.jobs == self.processes@,
            decreases self.processes.len() - i,
        {
            if self.processes[i].id == id {
                proof {
                    self@.lemma_slot(id, i as int);
                }
                return Some(i);
            }
            i += 1;
        }
        None
    }

    /// Whether a job is registered under `id`.
    pub fn contains(&self, id: u64) -> (b: bool)
        ensures
            b == self@.has(id),
    {
        self.position(id).is_some()
    }

    /// Registers a child that was just spawned and hands back its id. The
    /// scope must have an id left to give, which `is_full` tells.
    pub fn add_process(&mut self, core: ShellChildCore) -> (id: u64)
        requires
            !old(self)@.is_full(),
        ensures
            final(self)@ == old(self)@.add(core),
            id == old(self)@.next_id,
            final(self).inv(),
    {
        proof {
            use_type_invariant(&*self);
            use_type_invariant(&core);
            self@.lemma_wf_steps(0, core);
        }
        let id = self.next_id;
        let mut jobs: Vec<Job> = Vec::new();
        std::mem::swap(&mut self.processes, &mut jobs);
        jobs.push(Job { id, core });
        self.next_id = id + 1;
        self.processes = jobs;
        id
    }

    /// Takes the job under `id` out of the registry and hands back its
    /// child, which is now the caller's to reap.
    pub fn remove_process(&mut self, id: u64) -> (core: Option<ShellChildCore>)
        ensures
            final(self)@ == old(self)@.remove(id),
            core == old(self)@.find(id),
            final(self).inv(),
    {
        proof {
            use_type_invariant(&*self);
            self@.lemma_wf_steps(id, arbitrary());
        }
        match self.position(id) {
            Some(i) => {
                let mut jobs: Vec<Job> = Vec::new();
                std::mem::swap(&mut self.processes, &mut jobs);
                let job = jobs.remove(i);
                self.processes = jobs;
                Some(job.core)
            },
            None => None,
        }
    }

    /// Marks the scope as signaled and lists the `kill` for every job, in
    /// spawn order. The caller sends them all: one that fails, because its
    /// process is gone already, does not excuse the rest.
    pub fn signal(&mut self, signal: i32) -> (requests: Vec<KillRequest>)
        ensures
            final(self)@ == old(self)@.signal(),
            requests@ == old(self)@.kill_requests(signal),
            final(self).inv(),
    {
        proof {
            use_type_invariant(&*self);
            self@.lemma_wf_steps(0, arbitrary());
        }
        self.signaled = true;
        let mut requests: Vec<KillRequest> = Vec::new();
        let mut i: usize = 0;
        while i < self.processes.len()
            invariant
                i <= self.processes.len(),
                requests.len() == i,
                forall|k: int|
                    0 <= k < i ==> #[trigger] requests@[k] == self.processes@[k].core.spec_signal(
                        signal,
                    ),
            decreases self.processes.len() - i,
        {
            requests.push(self.processes[i].core.signal(signal));
            i += 1;
        }
        assert(requests@ =~= old(self)@.kill_requests(signal));
        requests
    }

    /// Hands out every job for reaping, in spawn order, and leaves the
    /// registry empty.
    pub fn wait(&mut self) -> (requests: Vec<ReapRequest>)
        ensures
            final(self)@ == old(self)@.drained(),
            requests@ == old(self)@.reap_requests(),
            final(self).inv(),
    {
        proof {
            use_type_invariant(&*self);
        }
        let mut jobs: Vec<Job> = Vec::new();
        std::mem::swap(&mut self.processes, &mut jobs);
        let ghost all = jobs@;
        let mut requests: Vec<ReapRequest> = Vec::new();
        for job in it: jobs
            invariant
                it.seq() == all,
                requests.len() == it.index(),
                forall|k: int|
                    0 <= k < it.index() ==> #[trigger] requests@[k] == all[k].core.spec_wait(),
        {
            requests.push(job.core.wait());
        }
        assert(requests@ =~= old(self)@.reap_requests());
        requests
    }

    /// The `kill` that sends `signal` to the job under `id`.
    pub fn signal_process(&self, id: u64, signal: i32) -> (r: Result<KillRequest, ShellError>)
        ensures
            r == self@.signal_process(id, signal),
    {
        match self.position(id) {
            Some(i) => Ok(self.processes[i].core.signal(signal)),
            None => Err(ShellError::NoSuchProcess),
        }
    }

    /// The wait that blocks until the job under `id` has exited. The job
    /// stays registered, so it can still be signaled.
    pub fn wait_null_process(&self, id: u64) -> (r: Result<WaitRequest, ShellError>)
        ensures
            r == self@.wait_null_process(id),
    {
        match self.position(id) {
            Some(i) => Ok(self.processes[i].core.wait_null()),
            None => Err(ShellError::NoSuchProcess),
        }
    }

    /// Takes the job under `id` out of the registry and hands back the wait
    /// that reaps it.
    pub fn wait_process(&mut self, id: u64) -> (r: Result<ReapRequest, ShellError>)
        ensures
            final(self)@ == old(self)@.remove(id),
            r == old(self)@.wait_process(id),
            final(self).inv(),
    {
        match self.remove_process(id) {
            Some(core) => Ok(core.wait()),
            None => Err(ShellError::NoSuchProcess),
        }
    }
}

/// The name of a thread that runs jobs in a scope of its own, for those who
/// want to signal everything it runs.
#[derive(Debug, Clone, Copy, PartialEq, Eq, Structural)]
pub struct ShellHandle {
    pub thread: u64,
}

impl ShellHandle {
    /// Delivers `signal` to every job of the thread and keeps the thread
    /// from spawning more. The `kill`s to send come back, in spawn order.
    pub fn signal(&self, manager: &mut ProcessManager, signal: i32) -> (requests: Vec<KillRequest>)
        ensures
            final(manager)@ == old(manager)@.signal_scope(self.thread),
            requests@ == old(manager)@.scope_kill_requests(self.thread, signal),
            final(manager).inv(),
    {
        manager.signal_thread_jobs(self.thread, signal)
    }

    /// Asks every job of the thread to terminate. The caller sends the
    /// `kill`s and then joins the thread.
    pub fn terminate(&self, manager: &mut ProcessManager) -> (requests: Vec<KillRequest>)
        ensures
            final(manager)@ == old(manager)@.signal_scope(self.thread),
            requests@ == old(manager)@.scope_kill_requests(self.thread, spec_sigterm()),
            final(manager).inv(),
    {
        manager.signal_thread_jobs(self.thread, sigterm_number())
    }
}

} // verus!

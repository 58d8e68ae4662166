//! The process-wide registry of scopes, and the path a terminating signal
//! takes through it.

use crate::job_handle::JobHandle;
use crate::local_shell::{LocalShell, ShellState};
use crate::request::{KillRequest, ReapRequest, WaitRequest};
use crate::result::{ExitStatus, ShellError};
use crate::shell_child::ShellChildCore;
use crate::sys::{
    sigint_number, sigterm_number, spec_sigint, spec_sigterm, SIGNAL_EXIT_BASE, SPAWN_REFUSED,
};
use std::collections::HashMap;
use vstd::prelude::*;
use vstd::std_specs::iter::IteratorSpec;

verus! {

broadcast use vstd::std_specs::hash::group_hash_axioms;

/// Where the registry stands on the way from a trapped signal to the end of
/// the program.
#[derive(Debug, Clone, Copy, PartialEq, Eq, Structural)]
pub enum TrapPhase {
    /// No terminating signal has arrived.
    Idle,
    /// This signal arrived and is being sent on to every job.
    Delivering(i32),
    /// Every job was signaled and handed out for reaping.
    Draining(i32),
    /// Every job is gone; the program ends on account of this signal.
    Terminal(i32),
}

/// What a `ProcessManager` holds, as plain mathematics.
pub struct ManagerState {
    /// The registered scopes, by the identity of their thread.
    pub scopes: Map<u64, ShellState>,
    pub phase: TrapPhase,
}

impl ManagerState {
    /// Every registered scope is well-formed.
    pub open spec fn wf(self) -> bool {
        forall|thread: u64| #[trigger]
            self.scopes.contains_key(thread) ==> self.scopes[thread].wf()
    }

    /// The state of a registry that was just made.
    pub open spec fn empty() -> ManagerState {
        ManagerState { scopes: Map::empty(), phase: TrapPhase::Idle }
    }

    /// Whether a terminating signal has been trapped. From then on nothing
    /// new may be spawned anywhere.
    pub open spec fn shutting_down(self) -> bool {
        !(self.phase is Idle)
    }

    /// The state of a scope opened now: empty, and signaled from the start
    /// if shutdown has begun.
    pub open spec fn fresh_scope(self) -> ShellState {
        ShellState { jobs: Seq::empty(), signaled: self.shutting_down(), next_id: 0 }
    }

    /// The state after a scope was opened for `thread`. A scope that exists
    /// is left alone.
    pub open spec fn add_scope(self, thread: u64) -> ManagerState {
        if self.scopes.contains_key(thread) {
            self
        } else {
            ManagerState {
                scopes: self.scopes.insert(thread, self.fresh_scope()),
                phase: self.phase,
            }
        }
    }

    /// The state after the scope of `thread` was closed.
    pub open spec fn remove_scope(self, thread: u64) -> ManagerState {
        ManagerState { scopes: self.scopes.remove(thread), phase: self.phase }
    }

    /// The state with the scope of `thread` replaced.
    pub open spec fn with_scope(self, thread: u64, scope: ShellState) -> ManagerState {
        ManagerState { scopes: self.scopes.insert(thread, scope), phase: self.phase }
    }

    /// Whether a spawn in the scope of `thread` is refused: the scope was
    /// signaled. A thread without a scope gets one on its first spawn.
    pub open spec fn refuses_spawn(self, thread: u64) -> bool {
        self.add_scope(thread).scopes[thread].signaled
    }

    /// Whether the scope of `thread` has run out of job ids.
    pub open spec fn is_full(self, thread: u64) -> bool {
        self.scopes.contains_key(thread) && self.scopes[thread].is_full()
    }

    /// The handle the next job registered for `thread` will get.
    pub open spec fn next_handle(self, thread: u64) -> JobHandle {
        JobHandle { thread, id: self.add_scope(thread).scopes[thread].next_id as u64 }
    }

    /// The state after `core` was registered for `thread`.
    pub open spec fn register(self, thread: u64, core: ShellChildCore) -> ManagerState {
        let opened = self.add_scope(thread);
        opened.with_scope(thread, opened.scopes[thread].add(core))
    }

    /// The live child behind a handle, if there is one.
    pub open spec fn find(self, handle: JobHandle) -> Option<ShellChildCore> {
        if self.scopes.contains_key(handle.thread) {
            self.scopes[handle.thread].find(handle.id)
        } else {
            None
        }
    }

    /// What signalling through a handle comes to.
    pub open spec fn signal(self, handle: JobHandle, sig: i32) -> Result<KillRequest, ShellError> {
        match self.find(handle) {
            Some(core) => Ok(core.spec_signal(sig)),
            None => Err(ShellError::NoSuchProcess),
        }
    }

    /// What waiting without reaping through a handle comes to.
    pub open spec fn wait_null(self, handle: JobHandle) -> Result<WaitRequest, ShellError> {
        match self.find(handle) {
            Some(core) => Ok(WaitRequest { pid: core.pid() }),
            None => Err(ShellError::NoSuchProcess),
        }
    }

    /// What reaping through a handle comes to.
    pub open spec fn wait(self, handle: JobHandle) -> Result<ReapRequest, ShellError> {
        match self.find(handle) {
            Some(core) => Ok(core.spec_wait()),
            None => Err(ShellError::NoSuchProcess),
        }
    }

    /// The state after the job behind a handle was taken out for reaping.
    pub open spec fn take(self, handle: JobHandle) -> ManagerState {
        if self.scopes.contains_key(handle.thread) {
            self.with_scope(handle.thread, self.scopes[handle.thread].remove(handle.id))
        } else {
            self
        }
    }

    /// The state after a signal was delivered to the scope of `thread`.
    pub open spec fn signal_scope(self, thread: u64) -> ManagerState {
        if self.scopes.contains_key(thread) {
            self.with_scope(thread, self.scopes[thread].signal())
        } else {
            self
        }
    }

    /// The `kill`s that deliver `sig` to the scope of `thread`.
    pub open spec fn scope_kill_requests(self, thread: u64, sig: i32) -> Seq<KillRequest> {
        if self.scopes.contains_key(thread) {
            self.scopes[thread].kill_requests(sig)
        } else {
            Seq::empty()
        }
    }

    /// Whether `signal` is one the program traps: the interrupt and the
    /// termination signal.
    pub open spec fn is_trapped(signal: i32) -> bool {
        signal == spec_sigint() || signal == spec_sigterm()
    }

    /// Whether a trapped signal that arrives now starts the shutdown.
    pub open spec fn accepts(self, signal: i32) -> bool {
        self.phase is Idle && Self::is_trapped(signal)
    }

    /// The state after `signal` arrived. The first trapped signal marks
    /// every scope as signaled and starts the delivery; anything else, and
    /// anything later, changes nothing.
    pub open spec fn receive(self, signal: i32) -> ManagerState {
        if self.accepts(signal) {
            ManagerState {
                scopes: self.scopes.map_values(|scope: ShellState| scope.signal()),
                phase: TrapPhase::Delivering(signal),
            }
        } else {
            self
        }
    }

    /// The state after the delivery was followed by handing out every job
    /// for reaping. Outside a delivery nothing changes.
    pub open spec fn drain(self) -> ManagerState {
        match self.phase {
            TrapPhase::Delivering(signal) => ManagerState {
                scopes: self.scopes.map_values(|scope: ShellState| scope.drained()),
                phase: TrapPhase::Draining(signal),
            },
            _ => self,
        }
    }

    /// The state after the drain was completed.
    pub open spec fn finish(self) -> ManagerState {
        match self.phase {
            TrapPhase::Draining(signal) => ManagerState {
                scopes: self.scopes,
                phase: TrapPhase::Terminal(signal),
            },
            _ => self,
        }
    }

    /// The code the program exits with once the shutdown is complete: 128
    /// plus the number of the signal that caused it.
    pub open spec fn exit_code(self) -> Option<int> {
        match self.phase {
            TrapPhase::Terminal(signal) => Some(128 + signal),
            _ => None,
        }
    }

    /// The reaps that a closing scope leaves to its owner.
    pub open spec fn scope_reap_requests(self, thread: u64) -> Seq<ReapRequest> {
        if self.scopes.contains_key(thread) {
            self.scopes[thread].reap_requests()
        } else {
            Seq::empty()
        }
    }
}

/// Whether `ids` names every member of `threads` exactly once.
pub open spec fn enumerates(ids: Seq<u64>, threads: Set<u64>) -> bool {
    ids.no_duplicates() && ids.to_set() == threads
}

/// Whether `out` holds, for every scope exactly once, the `kill`s that
/// deliver `sig` to its jobs in spawn order. The order of the scopes is open.
pub open spec fn delivers(
    out: Seq<(u64, Vec<KillRequest>)>,
    scopes: Map<u64, ShellState>,
    sig: i32,
) -> bool {
    &&& enumerates(Seq::new(out.len(), |i: int| out[i].0), scopes.dom())
    &&& forall|i: int|
        0 <= i < out.len() ==> (#[trigger] out[i]).1@ == scopes[out[i].0].kill_requests(sig)
}

/// Whether `out` holds, for every scope exactly once, the reaps of its jobs
/// in spawn order. The order of the scopes is open.
pub open spec fn drains(out: Seq<(u64, Vec<ReapRequest>)>, scopes: Map<u64, ShellState>) -> bool {
    &&& enumerates(Seq::new(out.len(), |i: int| out[i].0), scopes.dom())
    &&& forall|i: int|
        0 <= i < out.len() ==> (#[trigger] out[i]).1@ == scopes[out[i].0].reap_requests()
}

/// Managing global child process state.
pub struct ProcessManager {
    children: HashMap<u64, LocalShell>,
    phase: TrapPhase,
}

impl View for ProcessManager {
    type V = ManagerState;

    closed spec fn view(&self) -> ManagerState {
        ManagerState {
            scopes: self.children@.map_values(|shell: LocalShell| shell@),
            phase: self.phase,
        }
    }
}

impl ProcessManager {
    /// Every scope is valid, and a shutdown is under way only on account
    /// of a trapped signal.
    #[verifier::type_invariant]
    pub closed spec fn inv(self) -> bool {
        &&& forall|thread: u64| #[trigger]
            self.children@.contains_key(thread) ==> self.children@[thread].inv()
        &&& match self.phase {
            TrapPhase::Idle => true,
            TrapPhase::Delivering(signal) | TrapPhase::Draining(signal) | TrapPhase::Terminal(
                signal,
            ) => ManagerState::is_trapped(signal),
        }
    }

    /// What holds of every manager in running code.
    pub proof fn lemma_inv(&self)
        requires
            self.inv(),
        ensures
            self@.wf(),
    {
        assert forall|thread: u64| #[trigger]
            self@.scopes.contains_key(thread) implies self@.scopes[thread].wf() by {
            assert(self.children@.contains_key(thread));
            self.children@[thread].lemma_inv();
        }
    }

    /// From the moment a signal is accepted the phase carries a trapped one.
    pub proof fn lemma_phase(&self)
        requires
            self.inv(),
        ensures
            match self@.phase {
                TrapPhase::Idle => true,
                TrapPhase::Delivering(signal) | TrapPhase::Draining(signal) | TrapPhase::Terminal(
                    signal,
                ) => ManagerState::is_trapped(signal),
            },
    {
    }

    /// A registry without scopes, before any signal.
    pub fn new() -> (manager: ProcessManager)
        ensures
            manager@ == ManagerState::empty(),
            manager.inv(),
    {
        let manager = ProcessManager { children: HashMap::new(), phase: TrapPhase::Idle };
        assert(manager@.scopes =~= Map::empty());
        manager
    }

    /// Where the registry stands between a trapped signal and the end of the
    /// program.
    pub fn phase(&self) -> (phase: TrapPhase)
        ensures
            phase == self@.phase,
    {
        self.phase
    }

    /// Whether `thread` has a scope.
    pub fn has_local_shell(&self, thread: u64) -> (b: bool)
        ensures
            b == self@.scopes.contains_key(thread),
    {
        self.children.contains_key(&thread)
    }

    /// Opens a scope for `thread` and says whether it did: a thread that has
    /// a scope keeps it. A scope opened after shutdown has begun is signaled
    /// from the start.
    pub fn add_local_shell(&mut self, thread: u64) -> (added: bool)
        ensures
            final(self)@ == old(self)@.add_scope(thread),
            added == !old(self)@.scopes.contains_key(thread),
            final(self).inv(),
    {
        proof {
            use_type_invariant(&*self);
        }
        if self.children.contains_key(&thread) {
            false
        } else {
            let shell = LocalShell::starting(!matches!(self.phase, TrapPhase::Idle));
            let mut children: HashMap<u64, LocalShell> = HashMap::new();
            std::mem::swap(&mut self.children, &mut children);
            children.insert(thread, shell);
            self.children = children;
            assert(self@.scopes =~= old(self)@.add_scope(thread).scopes);
            true
        }
    }
    /// The scope of `thread`, if it has one.
    pub fn local_shell(&self, thread: u64) -> (shell: Option<&LocalShell>)
        ensures
            match shell {
                Some(shell) => self@.scopes.contains_key(thread) && shell@
                    == self@.scopes[thread] && shell.inv(),
                None => !self@.scopes.contains_key(thread),
            },
    {
        proof {
            use_type_invariant(self);
        }
        self.children.get(&thread)
    }

    /// The identities of the registered scopes, each once, in no particular
    /// order.
    pub fn threads(&self) -> (ids: Vec<u64>)
        ensures
            enumerates(ids@, self@.scopes.dom()),
    {
        let mut ids: Vec<u64> = Vec::new();
        let ghost all: Seq<u64> = self.children.keys().remaining().unref();
        for thread in it: self.children.keys()
            invariant
                all == it.seq().unref(),
                ids@ == all.take(it.index()),
        {
            ids.push(*thread);
        }
        assert(ids@ == all);
        assert(self@.scopes.dom() =~= self.children@.dom());
        ids
    }

    /// Closes the scope of `thread` and hands back the reaps of the jobs it
    /// still held, which are now the caller's to carry out.
    pub fn remove_local_shell(&mut self, thread: u64) -> (requests: Vec<ReapRequest>)
        ensures
            final(self)@ == old(self)@.remove_scope(thread),
            requests@ == old(self)@.scope_reap_requests(thread),
            final(self).inv(),
    {
        proof {
            use_type_invariant(&*self);
        }
        let mut children: HashMap<u64, LocalShell> = HashMap::new();
        std::mem::swap(&mut self.children, &mut children);
        let removed = children.remove(&thread);
        self.children = children;
        assert(self@.scopes =~= old(self)@.remove_scope(thread).scopes);
        match removed {
            Some(mut shell) => shell.wait(),
            None => Vec::new(),
        }
    }

    /// Decides whether a command may be spawned on `thread`, opening the
    /// thread's scope if it has none. A scope that was signaled, or that is
    /// opened after shutdown has begun, refuses: the refusal reads as the
    /// command having ended on the reserved signal number.
    pub fn check_spawn(&mut self, thread: u64, command_line: &String) -> (r: Result<
        (),
        ShellError,
    >)
        ensures
            final(self)@ == old(self)@.add_scope(thread),
            r == (if old(self)@.refuses_spawn(thread) {
                Err::<(), ShellError>(
                    ShellError::Status(
                        *command_line,
                        ExitStatus { raw: (128 + SPAWN_REFUSED) as i32 },
                    ),
                )
            } else {
                Ok::<(), ShellError>(())
            }),
            final(self).inv(),
    {
        self.add_local_shell(thread);
        match self.local_shell(thread) {
            Some(shell) => shell.check_spawn(command_line),
            None => Ok(()),
        }
    }

    /// Whether the scope of `thread` has run out of job ids.
    pub fn is_full(&self, thread: u64) -> (b: bool)
        ensures
            b == self@.is_full(thread),
    {
        match self.local_shell(thread) {
            Some(shell) => shell.is_full(),
            None => false,
        }
    }

    /// Registers a child that was just spawned on `thread` and hands back
    /// its handle. The child is registered whatever the state of the scope:
    /// once it exists it has to be tracked. The scope must have an id left
    /// to give, which `is_full` tells.
    pub fn add_process(&mut self, thread: u64, core: ShellChildCore) -> (handle: JobHandle)
        requires
            !old(self)@.is_full(thread),
        ensures
            final(self)@ == old(self)@.register(thread, core),
            handle == old(self)@.next_handle(thread),
            final(self).inv(),
    {
        proof {
            use_type_invariant(&*self);
        }
        let starts_signaled = !matches!(self.phase, TrapPhase::Idle);
        let mut children: HashMap<u64, LocalShell> = HashMap::new();
        std::mem::swap(&mut self.children, &mut children);
        let mut shell = match children.remove(&thread) {
            Some(shell) => shell,
            None => LocalShell::starting(starts_signaled),
        };
        let id = shell.add_process(core);
        children.insert(thread, shell);
        self.children = children;
        assert(self@.scopes =~= old(self)@.register(thread, core).scopes);
        JobHandle { thread, id }
    }

    /// Takes the job behind `handle` out of the registry and hands back its
    /// child, which is now the caller's to reap.
    pub fn remove_process(&mut self, handle: JobHandle) -> (core: Option<ShellChildCore>)
        ensures
            final(self)@ == old(self)@.take(handle),
            core == old(self)@.find(handle),
            final(self).inv(),
    {
        proof {
            use_type_invariant(&*self);
        }
        let mut children: HashMap<u64, LocalShell> = HashMap::new();
        std::mem::swap(&mut self.children, &mut children);
        let core = match children.remove(&handle.thread) {
            Some(mut shell) => {
                let core = shell.remove_process(handle.id);
                children.insert(handle.thread, shell);
                core
            },
            None => None,
        };
        self.children = children;
        assert(self@.scopes =~= old(self)@.take(handle).scopes);
        core
    }

    /// Delivers `signal` to the jobs of one thread: marks the thread's scope
    /// as signaled and lists the `kill` for each of its jobs. The shutdown
    /// of the program is not touched.
    pub fn signal_thread_jobs(&mut self, thread: u64, signal: i32) -> (requests: Vec<KillRequest>)
        ensures
            final(self)@ == old(self)@.signal_scope(thread),
            requests@ == old(self)@.scope_kill_requests(thread, signal),
            final(self).inv(),
    {
        proof {
            use_type_invariant(&*self);
        }
        let mut children: HashMap<u64, LocalShell> = HashMap::new();
        std::mem::swap(&mut self.children, &mut children);
        let requests = match children.remove(&thread) {
            Some(mut shell) => {
                let requests = shell.signal(signal);
                children.insert(thread, shell);
                requests
            },
            None => Vec::new(),
        };
        self.children = children;
        assert(self@.scopes =~= old(self)@.signal_scope(thread).scopes);
        requests
    }
    /// The signals whose arrival starts the shutdown, for the caller to
    /// block and wait on: the interrupt and the termination signal.
    pub fn trapped_signals() -> (signals: Vec<i32>)
        ensures
            signals@ == seq![spec_sigint(), spec_sigterm()],
    {
        let mut signals: Vec<i32> = Vec::new();
        signals.push(sigint_number());
        signals.push(sigterm_number());
        signals
    }

    /// Whether `signal` is one of the trapped signals.
    pub fn is_trapped(signal: i32) -> (b: bool)
        ensures
            b == ManagerState::is_trapped(signal),
    {
        signal == sigint_number() || signal == sigterm_number()
    }

    /// Takes in a signal that the program trapped. The first one starts the
    /// shutdown: every scope is marked as signaled, so that nothing new is
    /// spawned, and the `kill`s that pass the signal on to every job of
    /// every scope are handed back. A signal that is not trapped, or that
    /// arrives when shutdown has begun, changes nothing and asks for nothing.
    pub fn receive(&mut self, signal: i32) -> (out: Vec<(u64, Vec<KillRequest>)>)
        ensures
            final(self)@ == old(self)@.receive(signal),
            old(self)@.accepts(signal) ==> delivers(out@, old(self)@.scopes, signal),
            !old(self)@.accepts(signal) ==> out@.len() == 0,
            final(self).inv(),
    {
        proof {
            use_type_invariant(&*self);
        }
        if !(matches!(self.phase, TrapPhase::Idle) && Self::is_trapped(signal)) {
            return Vec::new();
        }
        let ids = self.threads();
        assert(self@.scopes.dom() =~= self.children@.dom());
        let mut children: HashMap<u64, LocalShell> = HashMap::new();
        std::mem::swap(&mut self.children, &mut children);
        let ghost before = children@;
        let mut out: Vec<(u64, Vec<KillRequest>)> = Vec::new();
        let mut i: usize = 0;
        while i < ids.len()
            invariant
                i <= ids.len(),
                out.len() == i,
                enumerates(ids@, before.dom()),
                children@.dom() == before.dom(),
                forall|thread: u64| #[trigger]
                    children@.contains_key(thread) ==> children@[thread].inv(),
                forall|j: int|
                    0 <= j < i ==> (#[trigger] out@[j]).0 == ids@[j] && out@[j].1@
                        == before[ids@[j]]@.kill_requests(signal),
                forall|j: int|
                    0 <= j < i ==> (#[trigger] children@[ids@[j]])@ == before[ids@[j]]@.signal(),
                forall|j: int|
                    i <= j < ids.len() ==> #[trigger] children@[ids@[j]] == before[ids@[j]],
            decreases ids.len() - i,
        {
            let thread = ids[i];
            assert(ids@.to_set().contains(ids@[i as int]));
            if let Some(mut shell) = children.remove(&thread) {
                let requests = shell.signal(signal);
                children.insert(thread, shell);
                out.push((thread, requests));
            }
            assert(children@.dom() =~= before.dom());
            i += 1;
        }
        self.phase = TrapPhase::Delivering(signal);
        self.children = children;
        proof {
            let ids_out = Seq::new(out@.len(), |k: int| out@[k].0);
            assert(ids_out =~= ids@);
            assert forall|thread: u64| before.contains_key(thread) implies (
            #[trigger] children@[thread])@ == before[thread]@.signal() by {
                assert(ids@.to_set().contains(thread));
                let j = choose|j: int| 0 <= j < ids@.len() && ids@[j] == thread;
                assert(children@[ids@[j]]@ == before[ids@[j]]@.signal());
            }
            assert(self@.scopes =~= old(self)@.receive(signal).scopes);
            assert forall|k: int| 0 <= k < out@.len() implies (#[trigger] out@[k]).1@
                == old(self)@.scopes[out@[k].0].kill_requests(signal) by {
                assert(ids@.to_set().contains(ids@[k]));
            }
        }
        out
    }

    /// Follows a delivery: takes every job of every scope out of the
    /// registry and hands back the reaps, which the caller carries out
    /// before the program ends. Outside a delivery it changes nothing and
    /// asks for nothing.
    pub fn drain(&mut self) -> (out: Vec<(u64, Vec<ReapRequest>)>)
        ensures
            final(self)@ == old(self)@.drain(),
            old(self)@.phase is Delivering ==> drains(out@, old(self)@.scopes),
            !(old(self)@.phase is Delivering) ==> out@.len() == 0,
            final(self).inv(),
    {
        proof {
            use_type_invariant(&*self);
        }
        let signal = match self.phase {
            TrapPhase::Delivering(signal) => signal,
            _ => {
                return Vec::new();
            },
        };
        let ids = self.threads();
        assert(self@.scopes.dom() =~= self.children@.dom());
        let mut children: HashMap<u64, LocalShell> = HashMap::new();
        std::mem::swap(&mut self.children, &mut children);
        let ghost before = children@;
        let mut out: Vec<(u64, Vec<ReapRequest>)> = Vec::new();
        let mut i: usize = 0;
        while i < ids.len()
            invariant
                i <= ids.len(),
                out.len() == i,
                enumerates(ids@, before.dom()),
                children@.dom() == before.dom(),
                forall|thread: u64| #[trigger]
                    children@.contains_key(thread) ==> children@[thread].inv(),
                forall|j: int|
                    0 <= j < i ==> (#[trigger] out@[j]).0 == ids@[j] && out@[j].1@
                        == before[ids@[j]]@.reap_requests(),
                forall|j: int|
                    0 <= j < i ==> (#[trigger] children@[ids@[j]])@ == before[ids@[j]]@.drained(),
                forall|j: int|
                    i <= j < ids.len() ==> #[trigger] children@[ids@[j]] == before[ids@[j]],
            decreases ids.len() - i,
        {
            let thread = ids[i];
            assert(ids@.to_set().contains(ids@[i as int]));
            if let Some(mut shell) = children.remove(&thread) {
                let requests = shell.wait();
                children.insert(thread, shell);
                out.push((thread, requests));
            }
            assert(children@.dom() =~= before.dom());
            i += 1;
        }
        self.phase = TrapPhase::Draining(signal);
        self.children = children;
        proof {
            let ids_out = Seq::new(out@.len(), |k: int| out@[k].0);
            assert(ids_out =~= ids@);
            assert forall|thread: u64| before.contains_key(thread) implies (
            #[trigger] children@[thread])@ == before[thread]@.drained() by {
                assert(ids@.to_set().contains(thread));
                let j = choose|j: int| 0 <= j < ids@.len() && ids@[j] == thread;
                assert(children@[ids@[j]]@ == before[ids@[j]]@.drained());
            }
            assert(self@.scopes =~= old(self)@.drain().scopes);
            assert forall|k: int| 0 <= k < out@.len() implies (#[trigger] out@[k]).1@
                == old(self)@.scopes[out@[k].0].reap_requests() by {
                assert(ids@.to_set().contains(ids@[k]));
            }
        }
        out
    }

    /// Completes a drain and says what the program exits with: 128 plus the
    /// number of the signal that started the shutdown. Before the drain, and
    /// where no shutdown is under way, there is no exit code and nothing
    /// changes.
    pub fn finish(&mut self) -> (code: Option<i32>)
        ensures
            final(self)@ == old(self)@.finish(),
            code matches Some(c) ==> final(self)@.exit_code() == Some(c as int),
            code is None <==> final(self)@.exit_code() is None,
            final(self).inv(),
    {
        proof {
            use_type_invariant(&*self);
        }
        match self.phase {
            TrapPhase::Draining(signal) => {
                self.phase = TrapPhase::Terminal(signal);
                Some(SIGNAL_EXIT_BASE + signal)
            },
            TrapPhase::Terminal(signal) => Some(SIGNAL_EXIT_BASE + signal),
            _ => None,
        }
    }
}

/// Once a trapped signal has been accepted nothing is spawned any more: the
/// scope of every thread refuses, whether it existed when the signal came
/// or is opened later. The same holds of one scope after a signal to it.
pub proof fn lemma_shutdown_refuses_spawns(m: ManagerState, signal: i32, thread: u64)
    requires
        m.accepts(signal),
    ensures
        m.receive(signal).refuses_spawn(thread),
        m.receive(signal).drain().refuses_spawn(thread),
        m.receive(signal).drain().finish().refuses_spawn(thread),
        m.scopes.contains_key(thread) ==> m.signal_scope(thread).refuses_spawn(thread),
{
}

/// A shutdown runs from the signal to the exit code: the signal is accepted
/// once, the drain leaves no job behind in any scope, and the program ends
/// with 128 plus the signal's number.
pub proof fn lemma_shutdown_completes(m: ManagerState, signal: i32, handle: JobHandle)
    requires
        m.wf(),
        m.accepts(signal),
    ensures
        m.receive(signal).phase == TrapPhase::Delivering(signal),
        !m.receive(signal).accepts(signal),
        m.receive(signal).find(handle) == m.find(handle),
        m.receive(signal).drain().find(handle) is None,
        m.receive(signal).drain().finish().exit_code() == Some(128 + signal),
        m.exit_code() is None,
        m.receive(signal).exit_code() is None,
        m.receive(signal).drain().exit_code() is None,
{
    if m.scopes.contains_key(handle.thread) {
        let scope = m.scopes[handle.thread];
        scope.lemma_signal_keeps(handle.id);
        scope.signal().lemma_signal_keeps(handle.id);
    }
}

} // verus!

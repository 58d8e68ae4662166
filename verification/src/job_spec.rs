//! The description of a job before it is spawned.

use crate::job_handle::JobHandle;
use crate::process_manager::ProcessManager;
use crate::shell_child::ShellChildCore;
use crate::shell_command::ShellCommand;
use vstd::prelude::*;

verus! {

/// One variable to set in the environment of a job.
#[derive(Debug, PartialEq, Eq)]
pub struct EnvSetting {
    pub name: String,
    pub value: String,
}

/// Everything that is settled about a job before it runs: the command, the
/// directory it runs in, what is added to its environment, and whether it
/// leads a process group of its own.
#[derive(Debug, PartialEq, Eq)]
pub struct JobSpec {
    pub command: ShellCommand,
    pub has_group: bool,
    pub directory: Option<String>,
    pub environment: Vec<EnvSetting>,
}

impl JobSpec {
    /// A job that runs `command` where and as the caller runs, in the
    /// caller's process group.
    pub fn new(command: ShellCommand) -> (spec: JobSpec)
        ensures
            spec.command == command,
            !spec.has_group,
            spec.directory is None,
            spec.environment@.len() == 0,
    {
        JobSpec { command, has_group: false, directory: None, environment: Vec::new() }
    }

    /// Makes the job the leader of a process group of its own, so that a
    /// signal to the job reaches everything it starts.
    pub fn set_has_group(self) -> (spec: JobSpec)
        ensures
            spec.has_group,
            spec.command == self.command,
            spec.directory == self.directory,
            spec.environment == self.environment,
    {
        let mut spec = self;
        spec.has_group = true;
        spec
    }

    /// Sets the directory the job runs in.
    pub fn current_dir(self, path: &str) -> (spec: JobSpec)
        ensures
            spec.directory is Some,
            spec.directory->0@ == path@,
            spec.command == self.command,
            spec.has_group == self.has_group,
            spec.environment == self.environment,
    {
        let mut spec = self;
        spec.directory = Some(path.to_owned());
        spec
    }

    /// Adds a variable to the environment of the job. Of two settings of
    /// one name the later one counts.
    pub fn env(self, name: &str, value: &str) -> (spec: JobSpec)
        ensures
            spec.environment@.len() == self.environment@.len() + 1,
            spec.environment@.last().name@ == name@,
            spec.environment@.last().value@ == value@,
            spec.environment@.drop_last() == self.environment@,
            spec.command == self.command,
            spec.has_group == self.has_group,
            spec.directory == self.directory,
    {
        let mut spec = self;
        spec.environment.push(EnvSetting { name: name.to_owned(), value: value.to_owned() });
        assert(spec.environment@.drop_last() =~= self.environment@);
        spec
    }

    /// Registers the process that was started from this description on
    /// `thread` and names it. The job is reported under the command's line
    /// and leads a group if the description says so. The pid is that of a
    /// process, so positive, and the scope must have an id left to give.
    pub fn spawn(self, manager: &mut ProcessManager, thread: u64, pid: i32) -> (handle: JobHandle)
        requires
            pid > 0,
            !old(manager)@.is_full(thread),
        ensures
            final(manager)@ == old(manager)@.register(
                thread,
                ShellChildCore::spec_new(self.command.line, pid, self.has_group),
            ),
            handle == old(manager)@.next_handle(thread),
            final(manager).inv(),
    {
        let core = ShellChildCore::new(self.command.line, pid, self.has_group);
        JobHandle::new(manager, thread, core)
    }
}

} // verus!

//! Sans-I/O process supervision.
//!
//! The crate holds the bookkeeping and the decisions of a small job-control
//! library: which process or process group a signal goes to, who may reap a
//! child and when, which children a thread or the whole program answers for,
//! and what has to happen once a terminating signal arrives. It never makes a
//! system call that changes anything. Each operation hands back a plain
//! request (`kill` this target, wait for that pid, exit with this code) and
//! takes the raw result of carrying it out, so the caller owns all I/O.
//!
//! A child that was started is a `ShellChildCore`. It is registered in the
//! `LocalShell` of the thread that spawned it, which the one
//! `ProcessManager` of the program keeps, and is named from then on by a
//! `JobHandle`. Signals and waits go through the handle. A wait is cut in
//! two: the first half blocks until the child has exited and leaves it
//! registered, so that signals still reach it; the second half takes it out
//! and reaps it, once. A trapped interrupt or termination signal is passed
//! on to every job of every thread, the jobs are reaped, and the program
//! ends with 128 plus the number of the signal.
//!
//! `SignalHandler` plans the two sides of a `fork` and keeps the forked
//! children by pid. The `command` module reads command templates.

pub mod command;
pub mod job_handle;
pub mod job_spec;
pub mod local_shell;
pub mod pipe_capture;
pub mod process_manager;
pub mod request;
pub mod result;
pub mod shell_child;
pub mod shell_command;
pub mod signal_handler;
pub mod sys;

pub use crate::command::new_command;
pub use crate::job_handle::{ChildProcess, JobHandle};
pub use crate::job_spec::JobSpec;
pub use crate::local_shell::{LocalShell, ShellHandle};
pub use crate::pipe_capture::PipeCapture;
pub use crate::process_manager::ProcessManager;
pub use crate::result::{
    check_errno, ok, ShellError, ShellResult, ShellResultExt, SuccessfulExit,
};
pub use crate::shell_child::ShellChildCore;
pub use crate::shell_command::ShellCommand;
pub use crate::signal_handler::SignalHandler;

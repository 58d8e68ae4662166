use shell::job_handle::{ChildProcess, JobHandle};
use shell::local_shell::{LocalShell, ShellHandle};
use shell::process_manager::ProcessManager;
use shell::request::{KillRequest, ReapRequest, ReapStep, WaitRequest, WaitStep};
use shell::result::{ok, ExitStatus, ShellError, ShellResult, ShellResultExt};
use shell::shell_child::ShellChildCore;

fn child(line: &str, pid: i32, group: bool) -> ShellChildCore {
    ShellChildCore::new(String::from(line), pid, group)
}

fn reap(line: &str, pid: i32) -> ReapRequest {
    ReapRequest { pid, command_line: String::from(line) }
}

#[test]
fn a_signal_goes_to_the_child_or_to_its_group() {
    let alone = child("sleep 5", 4242, false);
    assert_eq!(alone.signal(15), KillRequest { target: 4242, signal: 15 });
    let leader = child("sleep 5", 4242, true);
    assert_eq!(leader.signal(15), KillRequest { target: -4242, signal: 15 });
    assert_eq!(leader.signal(2), KillRequest { target: -4242, signal: 2 });
    let largest = child("x", i32::MAX, true);
    assert_eq!(largest.signal(9).target, -i32::MAX);
}

#[test]
fn a_child_knows_what_it_was_made_of() {
    let mut core = child("make -j4", 17, false);
    assert_eq!(core.id(), 17);
    assert!(!core.leads_group());
    core.set_has_group(true);
    assert!(core.leads_group());
    assert_eq!(core.id(), 17);
    assert_eq!(core.wait_null(), WaitRequest { pid: 17 });
    assert_eq!(core.wait(), reap("make -j4", 17));
}

#[test]
fn a_slot_is_reaped_once() {
    let mut slot = ChildProcess::new(child("sleep 1", 300, false));
    assert!(slot.live());
    assert_eq!(slot.signal(15).unwrap(), KillRequest { target: 300, signal: 15 });
    assert_eq!(slot.wait_null().unwrap(), WaitRequest { pid: 300 });
    assert_eq!(slot.wait_mut().unwrap(), reap("sleep 1", 300));
    assert!(!slot.live());
    assert!(matches!(slot.wait_mut(), Err(ShellError::NoSuchProcess)));
    assert!(matches!(slot.signal(15), Err(ShellError::NoSuchProcess)));
    assert!(matches!(slot.wait_null(), Err(ShellError::NoSuchProcess)));
    assert_eq!(slot.release(), None);
}

#[test]
fn a_slot_given_up_asks_for_its_reap() {
    let mut slot = ChildProcess::new(child("sleep 1", 301, true));
    assert_eq!(slot.release(), Some(reap("sleep 1", 301)));
    assert!(!slot.live());
    assert_eq!(slot.release(), None);
}

#[test]
fn a_slot_changes_its_group_only_while_live() {
    let mut slot = ChildProcess::new(child("c", 5, false));
    slot.set_has_group(true);
    assert_eq!(slot.signal(1).unwrap().target, -5);
    slot.set_has_group(false);
    assert_eq!(slot.signal(1).unwrap().target, 5);
    let _ = slot.wait_mut();
    slot.set_has_group(true);
    assert!(!slot.live());
}

#[test]
fn kill_and_wait_results() {
    let kill = KillRequest { target: 1, signal: 15 };
    assert!(kill.complete(0).is_ok());
    errno::set_errno(errno::Errno(1));
    assert!(matches!(kill.complete(-1), Err(ShellError::Errno("kill", 1))));
    let wait = WaitRequest { pid: 1 };
    assert!(wait.complete(0).is_ok());
    errno::set_errno(errno::Errno(10));
    assert!(matches!(wait.complete(-1), Err(ShellError::Errno("waitid", 10))));
}

#[test]
fn reap_results() {
    match reap("true", 9).complete(9, ExitStatus::from_raw(0)) {
        ReapStep::Done(result) => assert!(result.is_ok()),
        _ => panic!("expected the reap to be done"),
    }
    match reap("false", 9).complete(9, ExitStatus::from_raw(256)) {
        ReapStep::Done(Err(ShellError::Status(line, status))) => {
            assert_eq!(line, "false");
            assert_eq!(status.code(), Some(1));
        }
        _ => panic!("expected a failure status"),
    }
    match reap("sleep 9", 9).complete(9, ExitStatus::from_raw(15)) {
        ReapStep::Done(Err(ShellError::Status(line, status))) => {
            assert_eq!(line, "sleep 9");
            assert_eq!(status.signal(), Some(15));
        }
        _ => panic!("expected a signal status"),
    }
    match reap("cat", 9).complete(9, ExitStatus::from_raw(0x137f)) {
        ReapStep::Retry(request) => assert_eq!(request, reap("cat", 9)),
        _ => panic!("expected another wait"),
    }
    errno::set_errno(errno::Errno(10));
    match reap("cat", 9).complete(-1, ExitStatus::from_raw(0)) {
        ReapStep::Done(Err(ShellError::Errno("waitpid", 10))) => {}
        _ => panic!("expected the error of the call"),
    }
}

#[test]
fn a_shell_hands_out_rising_ids() {
    let mut shell = LocalShell::new();
    assert_eq!(shell.len(), 0);
    assert!(!shell.signaled());
    assert!(!shell.is_full());
    assert_eq!(shell.add_process(child("a", 10, false)), 0);
    assert_eq!(shell.add_process(child("b", 11, false)), 1);
    assert_eq!(shell.remove_process(0), Some(child("a", 10, false)));
    assert_eq!(shell.add_process(child("c", 12, false)), 2);
    assert_eq!(shell.len(), 2);
    assert!(!shell.contains(0));
    assert!(shell.contains(1));
    assert!(shell.contains(2));
    assert!(!shell.contains(3));
    assert_eq!(shell.remove_process(0), None);
    assert_eq!(shell.remove_process(7), None);
    assert_eq!(shell.len(), 2);
}

#[test]
fn a_shell_signals_all_its_jobs_in_spawn_order() {
    let mut shell = LocalShell::new();
    shell.add_process(child("a", 10, false));
    shell.add_process(child("b", 11, true));
    shell.add_process(child("c", 12, false));
    shell.remove_process(0);
    let requests = shell.signal(2);
    assert_eq!(
        requests,
        vec![KillRequest { target: -11, signal: 2 }, KillRequest { target: 12, signal: 2 }]
    );
    assert!(shell.signaled());
    assert_eq!(shell.len(), 2);
    assert_eq!(shell.signal(15).len(), 2);
}

#[test]
fn a_shell_drains_into_reaps() {
    let mut shell = LocalShell::new();
    shell.add_process(child("a", 10, false));
    shell.add_process(child("b", 11, true));
    assert_eq!(shell.wait(), vec![reap("a", 10), reap("b", 11)]);
    assert_eq!(shell.len(), 0);
    assert_eq!(shell.wait(), Vec::new());
    assert!(matches!(shell.signal_process(0, 15), Err(ShellError::NoSuchProcess)));
    assert_eq!(shell.add_process(child("c", 12, false)), 2);
}

#[test]
fn a_shell_serves_single_jobs() {
    let mut shell = LocalShell::new();
    let a = shell.add_process(child("a", 10, false));
    let b = shell.add_process(child("b", 11, true));
    assert_eq!(shell.signal_process(b, 9).unwrap(), KillRequest { target: -11, signal: 9 });
    assert_eq!(shell.wait_null_process(a).unwrap(), WaitRequest { pid: 10 });
    assert_eq!(shell.wait_process(a).unwrap(), reap("a", 10));
    assert!(matches!(shell.wait_process(a), Err(ShellError::NoSuchProcess)));
    assert!(matches!(shell.wait_null_process(a), Err(ShellError::NoSuchProcess)));
    assert_eq!(shell.signal_process(b, 9).unwrap().target, -11);
}

#[test]
fn a_signaled_shell_refuses_to_spawn() {
    let mut shell = LocalShell::new();
    assert!(shell.check_spawn(&String::from("sleep 1")).is_ok());
    shell.signal(15);
    match shell.check_spawn(&String::from("sleep 1")) {
        Err(ShellError::Status(line, status)) => {
            assert_eq!(line, "sleep 1");
            assert_eq!(status.into_raw(), 229);
        }
        _ => panic!("expected a refusal"),
    }
    let born_signaled = LocalShell::starting(true);
    assert!(born_signaled.signaled());
    assert!(born_signaled.check_spawn(&String::from("x")).is_err());
    assert!(!LocalShell::starting(false).signaled());
}

#[test]
fn a_job_is_reaped_at_most_once() {
    let mut manager = ProcessManager::new();
    let job = JobHandle::new(&mut manager, 1, child("sleep 1", 500, false));
    let copy = job;
    assert_eq!(job.wait(&mut manager).unwrap(), reap("sleep 1", 500));
    assert!(matches!(copy.wait(&mut manager), Err(ShellError::NoSuchProcess)));
    assert!(matches!(copy.signal(&manager, 15), Err(ShellError::NoSuchProcess)));
    assert!(matches!(copy.wait_null(&manager), Err(ShellError::NoSuchProcess)));
    assert!(matches!(copy.terminate(&manager), Err(ShellError::NoSuchProcess)));
}

#[test]
fn a_job_can_be_signaled_while_it_is_waited_for() {
    let mut manager = ProcessManager::new();
    let job = JobHandle::new(&mut manager, 1, child("sleep 1", 500, true));
    let copy = job;
    assert_eq!(job.wait_null(&manager).unwrap(), WaitRequest { pid: 500 });
    assert_eq!(copy.signal(&manager, 2).unwrap(), KillRequest { target: -500, signal: 2 });
    assert_eq!(copy.signal(&manager, 15).unwrap(), KillRequest { target: -500, signal: 15 });
    assert_eq!(job.wait_null(&manager).unwrap(), WaitRequest { pid: 500 });
    assert!(job.wait(&mut manager).is_ok());
    assert!(matches!(copy.signal(&manager, 15), Err(ShellError::NoSuchProcess)));
}

#[test]
fn reaping_one_job_leaves_the_others() {
    let mut manager = ProcessManager::new();
    let a = JobHandle::new(&mut manager, 1, child("a", 500, false));
    let b = JobHandle::new(&mut manager, 1, child("b", 501, false));
    let c = JobHandle::new(&mut manager, 2, child("c", 502, false));
    assert_eq!(a, JobHandle { thread: 1, id: 0 });
    assert_eq!(b, JobHandle { thread: 1, id: 1 });
    assert_eq!(c, JobHandle { thread: 2, id: 0 });
    assert!(a.wait(&mut manager).is_ok());
    assert_eq!(b.signal(&manager, 15).unwrap().target, 501);
    assert_eq!(c.signal(&manager, 15).unwrap().target, 502);
    let stranger = JobHandle { thread: 3, id: 0 };
    assert!(matches!(stranger.signal(&manager, 15), Err(ShellError::NoSuchProcess)));
    assert!(matches!(stranger.wait(&mut manager), Err(ShellError::NoSuchProcess)));
}

#[test]
fn a_handle_given_up_asks_for_the_reap() {
    let mut manager = ProcessManager::new();
    let job = JobHandle::new(&mut manager, 1, child("sleep 1", 500, false));
    let copy = job;
    assert_eq!(job.release(&mut manager), Some(reap("sleep 1", 500)));
    assert_eq!(copy.release(&mut manager), None);
    let waited = JobHandle::new(&mut manager, 1, child("sleep 2", 501, false));
    let copy = waited;
    assert!(waited.wait(&mut manager).is_ok());
    assert_eq!(copy.release(&mut manager), None);
}

#[test]
fn terminate_sends_the_termination_signal() {
    let mut manager = ProcessManager::new();
    let job = JobHandle::new(&mut manager, 1, child("sleep 1", 500, false));
    assert_eq!(job.terminate(&manager).unwrap(), KillRequest { target: 500, signal: 15 });
    let group = JobHandle::new(&mut manager, 1, child("sh -c x", 501, true));
    assert_eq!(group.terminate(&manager).unwrap(), KillRequest { target: -501, signal: 15 });
}

#[test]
fn terminate_accepts_every_way_a_process_ends() {
    assert!(JobHandle::settle_terminate(ok()).is_ok());
    let exited = ShellResult::from_status(String::from("c"), ExitStatus::from_raw(0));
    assert!(JobHandle::settle_terminate(exited).is_ok());
    let failed = ShellResult::from_status(String::from("c"), ExitStatus::from_raw(3 << 8));
    assert!(JobHandle::settle_terminate(failed).is_ok());
    let killed = ShellResult::from_status(String::from("c"), ExitStatus::from_raw(15));
    assert!(JobHandle::settle_terminate(killed).is_ok());
}

#[test]
fn terminate_keeps_the_errors_of_the_system() {
    assert!(matches!(
        JobHandle::settle_terminate(Err(ShellError::NoSuchProcess)),
        Err(ShellError::NoSuchProcess)
    ));
    assert!(matches!(
        JobHandle::settle_terminate(Err(ShellError::Errno("waitpid", 10))),
        Err(ShellError::Errno("waitpid", 10))
    ));
}

#[test]
fn terminate_of_a_process_that_exited_already() {
    let mut manager = ProcessManager::new();
    let job = JobHandle::new(&mut manager, 1, child("true", 500, false));
    let kill = job.terminate(&manager).unwrap();
    assert!(kill.complete(0).is_ok());
    assert!(job.wait_null(&manager).unwrap().complete(0).is_ok());
    let request = job.wait(&mut manager).unwrap();
    match request.complete(500, ExitStatus::from_raw(0)) {
        ReapStep::Done(result) => assert!(JobHandle::settle_terminate(result).is_ok()),
        _ => panic!("expected the reap to be done"),
    }
}

#[test]
fn a_shell_handle_signals_the_jobs_of_its_thread() {
    let mut manager = ProcessManager::new();
    JobHandle::new(&mut manager, 1, child("a", 500, false));
    JobHandle::new(&mut manager, 2, child("b", 501, false));
    JobHandle::new(&mut manager, 1, child("c", 502, true));
    let handle = ShellHandle { thread: 1 };
    assert_eq!(
        handle.signal(&mut manager, 2),
        vec![KillRequest { target: 500, signal: 2 }, KillRequest { target: -502, signal: 2 }]
    );
    assert!(manager.local_shell(1).unwrap().signaled());
    assert!(!manager.local_shell(2).unwrap().signaled());
    assert_eq!(
        ShellHandle { thread: 2 }.terminate(&mut manager),
        vec![KillRequest { target: 501, signal: 15 }]
    );
    assert!(manager.local_shell(2).unwrap().signaled());
    assert_eq!(ShellHandle { thread: 9 }.terminate(&mut manager), Vec::new());
    assert!(!manager.has_local_shell(9));
}

#[test]
fn a_wait_goes_through_its_steps() {
    let mut manager = ProcessManager::new();
    let job = JobHandle::new(&mut manager, 1, child("sleep 1", 500, false));
    let copy = job;
    match job.begin_wait(&manager) {
        WaitStep::Peek(request) => assert_eq!(request, WaitRequest { pid: 500 }),
        _ => panic!("expected the wait to block first"),
    }
    assert!(copy.signal(&manager, 15).is_ok());
    let request = match job.after_peek(&mut manager, Ok(())) {
        WaitStep::Reap(request) => request,
        _ => panic!("expected the reap"),
    };
    assert_eq!(request, reap("sleep 1", 500));
    assert!(matches!(copy.signal(&manager, 15), Err(ShellError::NoSuchProcess)));
    let request = match WaitStep::after_reap(request, 500, ExitStatus::from_raw(0x137f)) {
        WaitStep::Reap(request) => request,
        _ => panic!("expected the reap to be repeated"),
    };
    match WaitStep::after_reap(request, 500, ExitStatus::from_raw(15)) {
        WaitStep::Done(Err(ShellError::Status(line, status))) => {
            assert_eq!(line, "sleep 1");
            assert_eq!(status.signal(), Some(15));
        }
        _ => panic!("expected the wait to be over"),
    }
    assert!(matches!(copy.begin_wait(&manager), WaitStep::Done(Err(ShellError::NoSuchProcess))));
}

#[test]
fn a_wait_that_cannot_block_leaves_the_job_registered() {
    let mut manager = ProcessManager::new();
    let job = JobHandle::new(&mut manager, 1, child("sleep 1", 500, false));
    match job.after_peek(&mut manager, Err(ShellError::Errno("waitid", 10))) {
        WaitStep::Done(Err(ShellError::Errno("waitid", 10))) => {}
        _ => panic!("expected the error of the call"),
    }
    assert!(job.signal(&manager, 15).is_ok());
    assert!(matches!(job.after_peek(&mut manager, Ok(())), WaitStep::Reap(_)));
    assert!(matches!(
        job.after_peek(&mut manager, Ok(())),
        WaitStep::Done(Err(ShellError::NoSuchProcess))
    ));
    errno::set_errno(errno::Errno(10));
    assert!(matches!(
        WaitStep::after_reap(reap("x", 1), -1, ExitStatus::from_raw(0)),
        WaitStep::Done(Err(ShellError::Errno("waitpid", 10)))
    ));
}

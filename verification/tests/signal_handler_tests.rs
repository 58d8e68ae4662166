use shell::pipe_capture::PipeCapture;
use shell::request::{KillRequest, Pipe, ReapRequest, SysCall, WaitRequest, WaitStep};
use shell::result::{ExitStatus, ShellError, ShellResult, ShellResultExt};
use shell::signal_handler::{Forked, Redirect, SignalHandler};

const PIPE: Pipe = Pipe { read: 7, write: 8 };

fn fork_parent(
    handler: &mut SignalHandler,
    pid: i32,
    group: bool,
    stdout: Redirect,
) -> (Option<i32>, Vec<SysCall>, Option<ReapRequest>) {
    match handler.fork(pid, String::from("job"), group, None, stdout, PIPE) {
        Ok(Forked::Parent { pid: registered, capture, calls, displaced }) => {
            assert_eq!(registered, pid);
            (capture, calls, displaced)
        }
        _ => panic!("expected the parent's side"),
    }
}

fn fork_child(handler: &mut SignalHandler, group: bool, stdout: Redirect) -> Vec<SysCall> {
    match handler.fork(0, String::from("job"), group, None, stdout, PIPE) {
        Ok(Forked::Child { calls }) => calls,
        _ => panic!("expected the child's side"),
    }
}

#[test]
fn a_failed_fork_registers_nothing() {
    let mut handler = SignalHandler::new();
    errno::set_errno(errno::Errno(11));
    match handler.fork(-1, String::from("job"), true, Some(18), Redirect::Capture, PIPE) {
        Err(ShellError::Errno("fork", 11)) => {}
        _ => panic!("expected the error of the call"),
    }
    assert_eq!(handler.pids(), Vec::new());
    assert!(matches!(
        handler.fork(-5, String::from("job"), false, None, Redirect::Inherit, PIPE),
        Err(ShellError::Errno("fork", _))
    ));
}

#[test]
fn the_parent_registers_the_child() {
    let mut handler = SignalHandler::new();
    let (capture, calls, displaced) = fork_parent(&mut handler, 900, false, Redirect::Inherit);
    assert_eq!(capture, None);
    assert_eq!(calls, vec![SysCall::Close(7), SysCall::Close(8)]);
    assert_eq!(displaced, None);
    assert_eq!(handler.pids(), vec![900]);
    assert_eq!(handler.signal(900, 15).unwrap(), KillRequest { target: 900, signal: 15 });
}

#[test]
fn the_parent_of_a_group_leader_sets_the_group() {
    let mut handler = SignalHandler::new();
    let (capture, calls, _) = fork_parent(&mut handler, 900, true, Redirect::Inherit);
    assert_eq!(capture, None);
    assert_eq!(
        calls,
        vec![SysCall::SetPgid { pid: 900, pgid: 0 }, SysCall::Close(7), SysCall::Close(8)]
    );
    assert_eq!(handler.signal(900, 15).unwrap(), KillRequest { target: -900, signal: 15 });
}

#[test]
fn the_parent_keeps_the_read_end_of_a_capture() {
    let mut handler = SignalHandler::new();
    let (capture, calls, _) = fork_parent(&mut handler, 900, false, Redirect::Capture);
    assert_eq!(capture, Some(7));
    assert_eq!(calls, vec![SysCall::Close(8)]);
    let (capture, calls, _) = fork_parent(&mut handler, 901, true, Redirect::Capture);
    assert_eq!(capture, Some(7));
    assert_eq!(calls, vec![SysCall::SetPgid { pid: 901, pgid: 0 }, SysCall::Close(8)]);
}

#[test]
fn a_child_still_registered_under_the_pid_is_handed_out() {
    let mut handler = SignalHandler::new();
    match handler.fork(900, String::from("old"), true, None, Redirect::Inherit, PIPE) {
        Ok(Forked::Parent { displaced, .. }) => assert_eq!(displaced, None),
        _ => panic!("expected the parent's side"),
    }
    match handler.fork(900, String::from("new"), false, None, Redirect::Inherit, PIPE) {
        Ok(Forked::Parent { displaced, .. }) => {
            assert_eq!(displaced, Some(ReapRequest { pid: 900, command_line: String::from("old") }))
        }
        _ => panic!("expected the parent's side"),
    }
    assert_eq!(handler.pids(), vec![900]);
    assert_eq!(handler.signal(900, 15).unwrap().target, 900);
    assert_eq!(handler.wait(900).unwrap().command_line, "new");
}

#[test]
fn the_child_forgets_the_children_of_its_parent() {
    let mut handler = SignalHandler::new();
    fork_parent(&mut handler, 900, false, Redirect::Inherit);
    fork_parent(&mut handler, 901, false, Redirect::Inherit);
    assert_eq!(fork_child(&mut handler, false, Redirect::Inherit), Vec::new());
    assert_eq!(handler.pids(), Vec::new());
    assert!(matches!(handler.signal(900, 15), Err(ShellError::NoSuchProcess)));
    assert!(matches!(handler.wait(901), Err(ShellError::NoSuchProcess)));
}

#[test]
fn the_child_of_a_group_settles_its_pipe_and_leads() {
    let mut handler = SignalHandler::new();
    assert_eq!(
        fork_child(&mut handler, true, Redirect::Capture),
        vec![
            SysCall::Close(7),
            SysCall::Dup2 { from: 1, to: 8 },
            SysCall::SetPgid { pid: 0, pgid: 0 },
        ]
    );
    assert_eq!(
        fork_child(&mut handler, true, Redirect::Inherit),
        vec![SysCall::Close(7), SysCall::Close(8), SysCall::SetPgid { pid: 0, pgid: 0 }]
    );
    assert_eq!(fork_child(&mut handler, false, Redirect::Capture), Vec::new());
}

#[test]
fn the_flat_registry_reaps_once() {
    let mut handler = SignalHandler::new();
    fork_parent(&mut handler, 900, false, Redirect::Inherit);
    assert_eq!(handler.wait_null(900).unwrap(), WaitRequest { pid: 900 });
    assert_eq!(handler.signal(900, 2).unwrap(), KillRequest { target: 900, signal: 2 });
    assert_eq!(
        handler.wait(900).unwrap(),
        ReapRequest { pid: 900, command_line: String::from("job") }
    );
    assert!(matches!(handler.wait(900), Err(ShellError::NoSuchProcess)));
    assert!(matches!(handler.wait_null(900), Err(ShellError::NoSuchProcess)));
    assert!(matches!(handler.signal(900, 2), Err(ShellError::NoSuchProcess)));
    assert!(matches!(handler.signal(1, 2), Err(ShellError::NoSuchProcess)));
}

#[test]
fn a_handled_signal_reaches_every_child() {
    let mut handler = SignalHandler::new();
    fork_parent(&mut handler, 900, false, Redirect::Inherit);
    fork_parent(&mut handler, 901, true, Redirect::Inherit);
    assert!(!handler.signaled());
    assert!(handler.check_spawn(&String::from("x")).is_ok());
    let shutdown = handler.handle_signal(15).unwrap();
    let mut kills = shutdown.kills;
    kills.sort_by_key(|entry| entry.0);
    assert_eq!(
        kills,
        vec![
            (900, KillRequest { target: 900, signal: 15 }),
            (901, KillRequest { target: -901, signal: 15 }),
        ]
    );
    assert_eq!(shutdown.exit_code, 143);
    assert!(handler.signaled());
    match handler.check_spawn(&String::from("sleep 1")) {
        Err(ShellError::Status(line, status)) => {
            assert_eq!(line, "sleep 1");
            assert_eq!(status.into_raw(), 229);
        }
        _ => panic!("expected a refusal"),
    }
    assert_eq!(handler.handle_signal(2).unwrap().exit_code, 130);
}

#[test]
fn a_signal_that_is_not_trapped_is_not_handled() {
    let mut handler = SignalHandler::new();
    fork_parent(&mut handler, 900, false, Redirect::Inherit);
    assert!(handler.handle_signal(9).is_none());
    assert!(handler.handle_signal(0).is_none());
    assert!(handler.handle_signal(-15).is_none());
    assert!(!handler.signaled());
}

#[test]
fn a_panic_has_an_exit_code_of_its_own() {
    assert_eq!(SignalHandler::child_exit_code(true), 101);
    assert_eq!(SignalHandler::child_exit_code(false), 1);
    let status = ExitStatus::from_raw(SignalHandler::child_exit_code(true) << 8);
    let seen = ShellResult::from_status(String::from("closure"), status);
    assert!(seen.is_err());
    assert_eq!(seen.code(), 101);
    let plain = ExitStatus::from_raw(SignalHandler::child_exit_code(false) << 8);
    assert_eq!(ShellResult::from_status(String::from("closure"), plain).code(), 1);
}

#[test]
fn a_capture_follows_its_pipe() {
    errno::set_errno(errno::Errno(24));
    assert!(matches!(PipeCapture::new(-1, PIPE), Err(ShellError::Errno("pipe", 24))));
    let mut parent = PipeCapture::new(0, PIPE).unwrap();
    assert_eq!(parent.reader(), Some(7));
    assert!(parent.can_write());
    assert_eq!(parent.start_reading(), vec![SysCall::Close(8)]);
    assert!(!parent.can_write());
    assert_eq!(parent.start_reading(), Vec::new());
    assert_eq!(parent.reader(), Some(7));
    assert_eq!(parent.release(), vec![SysCall::Close(7)]);
    assert_eq!(parent.reader(), None);
    assert_eq!(parent.release(), Vec::new());
}

#[test]
fn a_capture_ties_the_write_end_to_the_output() {
    let child = PipeCapture::new(0, PIPE).unwrap();
    assert_eq!(
        child.start_writing(),
        vec![SysCall::Close(7), SysCall::Dup2 { from: 1, to: 8 }]
    );
    assert!(PipeCapture::finish_writing(8).is_ok());
    errno::set_errno(errno::Errno(9));
    assert!(matches!(PipeCapture::finish_writing(-1), Err(ShellError::Errno("dup2", 9))));
    let mut untouched = PipeCapture::new(0, PIPE).unwrap();
    assert_eq!(untouched.release(), vec![SysCall::Close(7), SysCall::Close(8)]);
}

#[test]
fn the_status_helpers_agree_with_the_system() {
    for raw in [
        0, 1, 2, 9, 15, 126, 127, 128, 143, 255, 256, 0x137f, 0xffff, 0x7f00, 0x8000, -1,
        i32::MIN, i32::MAX,
    ] {
        let status = ExitStatus::from_raw(raw);
        let code = if libc::WIFEXITED(raw) { Some(libc::WEXITSTATUS(raw)) } else { None };
        let signal = if libc::WIFSIGNALED(raw) { Some(libc::WTERMSIG(raw)) } else { None };
        assert_eq!(status.code(), code, "{}", raw);
        assert_eq!(status.signal(), signal, "{}", raw);
        assert!(!(code.is_some() && signal.is_some()));
    }
}

#[test]
fn the_flat_registry_waits_in_steps() {
    let mut handler = SignalHandler::new();
    fork_parent(&mut handler, 900, true, Redirect::Inherit);
    assert!(matches!(handler.begin_wait(900), WaitStep::Peek(WaitRequest { pid: 900 })));
    assert!(matches!(handler.begin_wait(901), WaitStep::Done(Err(ShellError::NoSuchProcess))));
    assert!(matches!(
        handler.after_peek(900, Err(ShellError::Errno("waitid", 4))),
        WaitStep::Done(Err(ShellError::Errno("waitid", 4)))
    ));
    assert_eq!(handler.pids(), vec![900]);
    match handler.after_peek(900, Ok(())) {
        WaitStep::Reap(request) => assert_eq!(request.pid, 900),
        _ => panic!("expected the reap"),
    }
    assert_eq!(handler.pids(), Vec::new());
    assert!(matches!(
        handler.after_peek(900, Ok(())),
        WaitStep::Done(Err(ShellError::NoSuchProcess))
    ));
}

#[test]
fn a_child_with_a_group_is_resumed_on_request() {
    let mut handler = SignalHandler::new();
    match handler.fork(900, String::from("job"), true, Some(18), Redirect::Capture, PIPE) {
        Ok(Forked::Parent { calls, .. }) => assert_eq!(
            calls,
            vec![
                SysCall::SetPgid { pid: 900, pgid: 0 },
                SysCall::Close(8),
                SysCall::Kill(KillRequest { target: 900, signal: 18 }),
            ]
        ),
        _ => panic!("expected the parent's side"),
    }
    match handler.fork(901, String::from("job"), false, Some(18), Redirect::Inherit, PIPE) {
        Ok(Forked::Parent { calls, .. }) => {
            assert_eq!(calls, vec![SysCall::Close(7), SysCall::Close(8)])
        }
        _ => panic!("expected the parent's side"),
    }
    match handler.fork(0, String::from("job"), true, Some(18), Redirect::Inherit, PIPE) {
        Ok(Forked::Child { calls }) => assert_eq!(
            calls,
            vec![SysCall::Close(7), SysCall::Close(8), SysCall::SetPgid { pid: 0, pgid: 0 }]
        ),
        _ => panic!("expected the child's side"),
    }
}

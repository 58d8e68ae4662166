use shell::result::{
    check_errno, check_status, decimal, ok, ExitOutcome, ExitStatus, ShellError, ShellResult,
    ShellResultExt, SuccessfulExit, VarError,
};

#[test]
fn test_from_raw() {
    let s = ExitStatus::from_raw(128 + 15);
    assert_eq!(s.signal().unwrap(), 15);
}

#[test]
fn status_of_normal_exit() {
    let s = ExitStatus::from_raw(3 << 8);
    assert_eq!(s.code(), Some(3));
    assert_eq!(s.signal(), None);
    assert_eq!(s.outcome(), Some(ExitOutcome::Exited(3)));
    assert!(!s.success());
    assert_eq!(s.into_raw(), 768);
}

#[test]
fn status_of_success() {
    let s = ExitStatus::from_raw(0);
    assert!(s.success());
    assert_eq!(s.code(), Some(0));
    assert_eq!(s.outcome(), Some(ExitOutcome::Exited(0)));
}

#[test]
fn status_of_death_by_signal() {
    let s = ExitStatus::from_raw(9);
    assert_eq!(s.code(), None);
    assert_eq!(s.signal(), Some(9));
    assert_eq!(s.outcome(), Some(ExitOutcome::Signaled(9)));
    assert!(!s.success());
}

#[test]
fn status_of_stop_is_no_outcome() {
    let s = ExitStatus::from_raw(0x137f);
    assert_eq!(s.code(), None);
    assert_eq!(s.signal(), None);
    assert_eq!(s.outcome(), None);
}

#[test]
fn status_of_continue_is_no_outcome() {
    let s = ExitStatus::from_raw(0xffff);
    assert_eq!(s.outcome(), None);
}

#[test]
fn exit_code_keeps_one_byte() {
    let s = ExitStatus::from_raw(0x1ff00);
    assert_eq!(s.code(), Some(255));
}

#[test]
fn from_status_and_code() {
    let good = ShellResult::from_status(String::from("true"), ExitStatus::from_raw(0));
    assert!(good.is_ok());
    assert_eq!(good.code(), 0);
    let bad = ShellResult::from_status(String::from("false"), ExitStatus::from_raw(1 << 8));
    assert_eq!(bad.code(), 1);
    match bad {
        Err(ShellError::Status(command, status)) => {
            assert_eq!(command, "false");
            assert_eq!(status.into_raw(), 256);
        }
        _ => panic!("expected a status error"),
    }
    assert!(ok().is_ok());
}

#[test]
fn code_of_each_kind_of_result() {
    let exited = ShellResult::from_status(String::from("c"), ExitStatus::from_raw(42 << 8));
    assert_eq!(exited.code(), 42);
    let killed = ShellResult::from_status(String::from("c"), ExitStatus::from_raw(15));
    assert_eq!(killed.code(), 1);
    let gone: ShellResult = Err(ShellError::NoSuchProcess);
    assert_eq!(gone.code(), 1);
    let failed: ShellResult = Err(ShellError::Errno("kill", 1));
    assert_eq!(failed.code(), 1);
}

#[test]
fn status_of_each_kind_of_result() {
    assert_eq!(ok().status().unwrap(), ExitStatus::from_raw(0));
    let killed = ShellResult::from_status(String::from("c"), ExitStatus::from_raw(15));
    assert_eq!(killed.status().unwrap(), ExitStatus::from_raw(15));
    let gone: ShellResult = Err(ShellError::NoSuchProcess);
    assert!(matches!(gone.status(), Err(ShellError::NoSuchProcess)));
    let unset: ShellResult = Err(ShellError::VarError(VarError::NotPresent));
    assert!(matches!(unset.status(), Err(ShellError::VarError(VarError::NotPresent))));
}

#[test]
fn from_signal_adds_the_base() {
    match ShellError::from_signal(String::from("sleep 1"), 15) {
        ShellError::Status(command, status) => {
            assert_eq!(command, "sleep 1");
            assert_eq!(status.into_raw(), 143);
            assert_eq!(status.signal(), Some(15));
        }
        _ => panic!("expected a status error"),
    }
    match ShellError::from_signal(String::new(), 255) {
        ShellError::Status(_, status) => assert_eq!(status.into_raw(), 383),
        _ => panic!("expected a status error"),
    }
}

#[test]
fn check_errno_passes_results_through() {
    assert_eq!(check_errno("fork", 0).unwrap(), 0);
    assert_eq!(check_errno("fork", 4711).unwrap(), 4711);
    assert_eq!(check_errno("fork", -2).unwrap(), -2);
}

#[test]
fn check_errno_reads_the_error_code() {
    errno::set_errno(errno::Errno(3));
    match check_errno("kill", -1) {
        Err(ShellError::Errno(name, code)) => {
            assert_eq!(name, "kill");
            assert_eq!(code, 3);
        }
        _ => panic!("expected an errno error"),
    }
    errno::set_errno(errno::Errno(10));
    match check_errno("waitid", -1) {
        Err(ShellError::Errno(name, code)) => {
            assert_eq!(name, "waitid");
            assert_eq!(code, 10);
        }
        _ => panic!("expected an errno error"),
    }
}

#[test]
fn check_status_names_the_call() {
    assert!(check_status("pthread_sigmask", 0).is_ok());
    match check_status("pthread_sigmask", 22) {
        Err(ShellError::Errno(name, code)) => {
            assert_eq!(name, "pthread_sigmask");
            assert_eq!(code, 22);
        }
        _ => panic!("expected an errno error"),
    }
    assert!(matches!(check_status("sigwait", -1), Err(ShellError::Errno("sigwait", -1))));
}

#[test]
fn errors_convert_from_their_sources() {
    let e: ShellError = VarError::NotUnicode.into();
    assert!(matches!(e, ShellError::VarError(VarError::NotUnicode)));
    let io = std::io::Error::from_raw_os_error(2);
    let e: ShellError = io.into();
    match e {
        ShellError::IoError(inner) => assert_eq!(inner.raw_os_error(), Some(2)),
        _ => panic!("expected an io error"),
    }
}

#[test]
fn successful_exit_is_the_default() {
    let _ = SuccessfulExit::default();
    let r: ShellResult = Ok(SuccessfulExit::default());
    assert_eq!(r.code(), 0);
}

#[test]
fn numbers_in_decimal() {
    assert_eq!(decimal(0), "0");
    assert_eq!(decimal(7), "7");
    assert_eq!(decimal(10), "10");
    assert_eq!(decimal(101), "101");
    assert_eq!(decimal(1234567890), "1234567890");
    assert_eq!(decimal(u32::MAX), "4294967295");
}

#[test]
fn statuses_in_words() {
    assert_eq!(ExitStatus::from_raw(0).describe(), "exit status: 0");
    assert_eq!(ExitStatus::from_raw(101 << 8).describe(), "exit status: 101");
    assert_eq!(ExitStatus::from_raw(15).describe(), "signal: 15");
    assert_eq!(ExitStatus::from_raw(0x137f).describe(), "unrecognized wait status");
}

#[test]
fn errors_in_words() {
    let failed = ShellError::Status(String::from("false"), ExitStatus::from_raw(1 << 8));
    assert_eq!(failed.message(), "command failed with exit code exit status: 1");
    let killed = ShellError::from_signal(String::from("sleep 9"), 15);
    assert_eq!(killed.message(), "command failed with exit code signal: 15");
    assert_eq!(ShellError::NoSuchProcess.message(), "unable to acquire handle to process");
    assert_eq!(
        ShellError::VarError(VarError::NotPresent).message(),
        "environment variable not found"
    );
    assert_eq!(
        ShellError::VarError(VarError::NotUnicode).message(),
        "environment variable was not valid unicode"
    );
    assert_eq!(ShellError::Errno("kill", 3).message(), errno::Errno(3).to_string());
    let io = std::io::Error::from_raw_os_error(2);
    let words = io.to_string();
    assert_eq!(ShellError::IoError(io).message(), words);
}

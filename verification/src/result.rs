//! Exit statuses, errors, and the result type every operation speaks.

use crate::sys::{
    errno_text, exit_code, exited, io_error_text, last_errno, lemma_status_fields, signaled,
    spec_exit_code, spec_exited, spec_signaled, spec_term_signal, term_signal, SIGNAL_EXIT_BASE,
};
use std::marker::PhantomData;
use vstd::prelude::*;
use vstd::string::*;

verus! {

/// `std::io::Error`, which errors carry through without looking inside.
#[verifier::external_type_specification]
#[verifier::external_body]
pub struct ExIoError(std::io::Error);

/// The character that stands for a digit.
pub open spec fn spec_digit(d: nat) -> char {
    if d == 0 {
        '0'
    } else if d == 1 {
        '1'
    } else if d == 2 {
        '2'
    } else if d == 3 {
        '3'
    } else if d == 4 {
        '4'
    } else if d == 5 {
        '5'
    } else if d == 6 {
        '6'
    } else if d == 7 {
        '7'
    } else if d == 8 {
        '8'
    } else {
        '9'
    }
}

/// A number in decimal digits, without leading zeros.
pub open spec fn spec_decimal(n: nat) -> Seq<char>
    decreases n,
{
    if n < 10 {
        seq![spec_digit(n)]
    } else {
        spec_decimal(n / 10).push(spec_digit(n % 10))
    }
}

fn digit(d: u32) -> (text: &'static str)
    requires
        d < 10,
    ensures
        text@ == seq![spec_digit(d as nat)],
{
    proof {
        reveal_strlit("0");
        reveal_strlit("1");
        reveal_strlit("2");
        reveal_strlit("3");
        reveal_strlit("4");
        reveal_strlit("5");
        reveal_strlit("6");
        reveal_strlit("7");
        reveal_strlit("8");
        reveal_strlit("9");
    }
    let text = if d == 0 {
        "0"
    } else if d == 1 {
        "1"
    } else if d == 2 {
        "2"
    } else if d == 3 {
        "3"
    } else if d == 4 {
        "4"
    } else if d == 5 {
        "5"
    } else if d == 6 {
        "6"
    } else if d == 7 {
        "7"
    } else if d == 8 {
        "8"
    } else {
        "9"
    };
    assert(text@ =~= seq![spec_digit(d as nat)]);
    text
}

/// Writes a number in decimal digits.
pub fn decimal(n: u32) -> (text: String)
    ensures
        text@ == spec_decimal(n as nat),
    decreases n,
{
    if n < 10 {
        String::from_str(digit(n))
    } else {
        let mut text = decimal(n / 10);
        text.append(digit(n % 10));
        assert(text@ =~= spec_decimal(n as nat));
        text
    }
}

/// How a reaped process ended.
#[derive(Debug, Clone, Copy, PartialEq, Eq, Structural)]
pub enum ExitOutcome {
    /// The process exited on its own with this code.
    Exited(i32),
    /// The process was killed by this signal.
    Signaled(i32),
}

/// A raw wait status, as `waitpid` stores it.
#[derive(Debug, Clone, Copy, PartialEq, Eq, Structural)]
pub struct ExitStatus {
    pub raw: i32,
}

impl ExitStatus {
    /// The outcome a status stands for: an exit with its code, a death by
    /// signal with its number, or nothing yet for a status that reports a
    /// stop or a continue.
    pub open spec fn spec_outcome(self) -> Option<ExitOutcome> {
        if spec_exited(self.raw) {
            Some(ExitOutcome::Exited(spec_exit_code(self.raw)))
        } else if spec_signaled(self.raw) {
            Some(ExitOutcome::Signaled(spec_term_signal(self.raw)))
        } else {
            None
        }
    }

    /// The status that `waitpid` stored as `raw`.
    pub fn from_raw(raw: i32) -> (s: ExitStatus)
        ensures
            s == (ExitStatus { raw }),
    {
        ExitStatus { raw }
    }

    /// The status as `waitpid` stored it.
    pub fn into_raw(&self) -> (raw: i32)
        ensures
            raw == self.raw,
    {
        self.raw
    }

    /// Whether the process exited with code zero.
    pub fn success(&self) -> (ok: bool)
        ensures
            ok == (self.raw == 0),
    {
        self.raw == 0
    }

    /// The exit code, if the process exited on its own.
    pub fn code(&self) -> (c: Option<i32>)
        ensures
            c == (if spec_exited(self.raw) {
                Some(spec_exit_code(self.raw))
            } else {
                None
            }),
    {
        if exited(self.raw) {
            Some(exit_code(self.raw))
        } else {
            None
        }
    }

    /// The terminating signal, if the process was killed by one.
    pub fn signal(&self) -> (s: Option<i32>)
        ensures
            s == (if spec_signaled(self.raw) {
                Some(spec_term_signal(self.raw))
            } else {
                None
            }),
    {
        if signaled(self.raw) {
            Some(term_signal(self.raw))
        } else {
            None
        }
    }

    /// How the process ended, or `None` if the status does not report an end
    /// and the wait has to be repeated.
    pub fn outcome(&self) -> (o: Option<ExitOutcome>)
        ensures
            o == self.spec_outcome(),
    {
        if exited(self.raw) {
            Some(ExitOutcome::Exited(exit_code(self.raw)))
        } else if signaled(self.raw) {
            Some(ExitOutcome::Signaled(term_signal(self.raw)))
        } else {
            None
        }
    }
}

/// What a status says in words.
pub open spec fn spec_status_text(status: ExitStatus) -> Seq<char> {
    match status.spec_outcome() {
        Some(ExitOutcome::Exited(code)) => "exit status: "@ + spec_decimal(code as nat),
        Some(ExitOutcome::Signaled(signal)) => "signal: "@ + spec_decimal(signal as nat),
        None => "unrecognized wait status"@,
    }
}

impl ExitStatus {
    /// The status in words: the exit code, or the signal the process died
    /// of.
    pub fn describe(&self) -> (text: String)
        ensures
            text@ == spec_status_text(*self),
    {
        proof {
            lemma_status_fields(self.raw);
        }
        match self.outcome() {
            Some(ExitOutcome::Exited(code)) => {
                let mut text = String::from_str("exit status: ");
                text.append(decimal(code as u32).as_str());
                text
            },
            Some(ExitOutcome::Signaled(signal)) => {
                let mut text = String::from_str("signal: ");
                text.append(decimal(signal as u32).as_str());
                text
            },
            None => String::from_str("unrecognized wait status"),
        }
    }
}

/// Why an environment variable could not be resolved.
#[derive(Debug, Clone, Copy, PartialEq, Eq, Structural)]
pub enum VarError {
    NotPresent,
    NotUnicode,
}

/// What can go wrong with a command.
#[derive(Debug)]
pub enum ShellError {
    /// The command ran and ended with this status, which is not a success.
    Status(String, ExitStatus),
    /// Launching the command or talking to it failed.
    IoError(std::io::Error),
    /// An environment variable named in the command line did not resolve.
    VarError(VarError),
    /// The named system call failed with this error code.
    Errno(&'static str, i32),
    /// The process was reaped already, or never existed.
    NoSuchProcess,
}

impl ShellError {
    /// The error of a command that ended on `signal`.
    pub fn from_signal(command: String, signal: u8) -> (e: ShellError)
        ensures
            e == ShellError::Status(command, ExitStatus { raw: (128 + signal) as i32 }),
    {
        let raw: i32 = SIGNAL_EXIT_BASE + signal as i32;
        ShellError::Status(command, ExitStatus::from_raw(raw))
    }

    /// The error in words, for a reader. Where the system has words for
    /// the error, for a failed call and for an error of input or output,
    /// those are given.
    pub fn message(&self) -> (text: String)
        ensures
            match *self {
                ShellError::Status(_, status) => text@ == "command failed with exit code "@
                    + spec_status_text(status),
                ShellError::VarError(VarError::NotPresent) => text@
                    == "environment variable not found"@,
                ShellError::VarError(VarError::NotUnicode) => text@
                    == "environment variable was not valid unicode"@,
                ShellError::NoSuchProcess => text@ == "unable to acquire handle to process"@,
                ShellError::IoError(_) | ShellError::Errno(_, _) => true,
            },
    {
        match self {
            ShellError::Status(_, status) => {
                let mut text = String::from_str("command failed with exit code ");
                text.append(status.describe().as_str());
                text
            },
            ShellError::IoError(error) => io_error_text(error),
            ShellError::VarError(VarError::NotPresent) => String::from_str(
                "environment variable not found",
            ),
            ShellError::VarError(VarError::NotUnicode) => String::from_str(
                "environment variable was not valid unicode",
            ),
            ShellError::Errno(_, code) => errno_text(*code),
            ShellError::NoSuchProcess => String::from_str("unable to acquire handle to process"),
        }
    }
}

impl From<std::io::Error> for ShellError {
    fn from(error: std::io::Error) -> (e: ShellError) {
        ShellError::IoError(error)
    }
}

impl vstd::std_specs::convert::FromSpecImpl<std::io::Error> for ShellError {
    open spec fn obeys_from_spec() -> bool {
        true
    }

    open spec fn from_spec(error: std::io::Error) -> ShellError {
        ShellError::IoError(error)
    }
}

impl From<VarError> for ShellError {
    fn from(error: VarError) -> (e: ShellError) {
        ShellError::VarError(error)
    }
}

impl vstd::std_specs::convert::FromSpecImpl<VarError> for ShellError {
    open spec fn obeys_from_spec() -> bool {
        true
    }

    open spec fn from_spec(error: VarError) -> ShellError {
        ShellError::VarError(error)
    }
}

/// The value of a command that ran to a successful end.
#[derive(Debug)]
pub struct SuccessfulExit(PhantomData<SuccessfulExit>);

impl SuccessfulExit {
    /// The one value of this type.
    pub closed spec fn unit() -> SuccessfulExit {
        SuccessfulExit(PhantomData)
    }

    /// The type has no other value.
    pub proof fn lemma_only_value(s: SuccessfulExit)
        ensures
            s == SuccessfulExit::unit(),
    {
    }
}

impl Default for SuccessfulExit {
    fn default() -> (s: SuccessfulExit)
        ensures
            s == SuccessfulExit::unit(),
    {
        SuccessfulExit(PhantomData)
    }
}

/// How a command ended: well, or with the reason it did not.
pub type ShellResult = Result<SuccessfulExit, ShellError>;

/// What a system call that reports failure as -1 came to, if `code` is the
/// error code it left behind: its return value, or the failure of the named
/// call with that code.
pub open spec fn spec_check_errno(name: &'static str, result: i32, code: i32) -> Result<
    i32,
    ShellError,
> {
    if result != -1 {
        Ok(result)
    } else {
        Err(ShellError::Errno(name, code))
    }
}

/// Turns the return value of a system call that reports failure as -1 into a
/// result, given the error code the call left behind.
pub fn check_errno_with(name: &'static str, result: i32, code: i32) -> (r: Result<i32, ShellError>)
    ensures
        r == spec_check_errno(name, result, code),
{
    if result != -1 {
        Ok(result)
    } else {
        Err(ShellError::Errno(name, code))
    }
}

/// Turns the return value of a system call that reports failure as -1 into a
/// result, naming the call in the error. The error code is the one the
/// thread's last failing call left behind, whatever it is.
pub fn check_errno(name: &'static str, result: i32) -> (r: Result<i32, ShellError>)
    ensures
        exists|code: i32| r == spec_check_errno(name, result, code),
        result != -1 ==> r == Ok::<i32, ShellError>(result),
        result == -1 ==> r is Err && r->Err_0 is Errno && r->Err_0->Errno_0 == name,
{
    if result != -1 {
        let r = Ok(result);
        assert(r == spec_check_errno(name, result, 0));
        r
    } else {
        let code = last_errno();
        let r = check_errno_with(name, result, code);
        assert(r == spec_check_errno(name, result, code));
        r
    }
}

/// Turns the return value of a call that reports failure by returning the
/// error code itself, and zero for success, into a result.
pub fn check_status(name: &'static str, result: i32) -> (r: Result<(), ShellError>)
    ensures
        r == (if result == 0 {
            Ok::<(), ShellError>(())
        } else {
            Err::<(), ShellError>(ShellError::Errno(name, result))
        }),
{
    if result == 0 {
        Ok(())
    } else {
        Err(ShellError::Errno(name, result))
    }
}

/// Returns `ShellResult` which is `Ok`.
pub fn ok() -> (r: ShellResult)
    ensures
        r == Ok::<SuccessfulExit, ShellError>(SuccessfulExit::unit()),
{
    Ok(SuccessfulExit(PhantomData))
}

/// What `from_status` returns.
pub open spec fn spec_from_status(command: String, status: ExitStatus) -> ShellResult {
    if status.raw == 0 {
        Ok(SuccessfulExit::unit())
    } else {
        Err(ShellError::Status(command, status))
    }
}

/// What `status` returns.
pub open spec fn spec_status(r: ShellResult) -> Result<ExitStatus, ShellError> {
    match r {
        Ok(_) => Ok(ExitStatus { raw: 0 }),
        Err(ShellError::Status(_, status)) => Ok(status),
        Err(error) => Err(error),
    }
}

/// What `code` returns.
pub open spec fn spec_code(r: ShellResult) -> int {
    match r {
        Ok(_) => 0,
        Err(ShellError::Status(_, status)) => if spec_exited(status.raw) {
            spec_exit_code(status.raw) as int
        } else {
            1
        },
        Err(_) => 1,
    }
}

/// What a `ShellResult` offers beyond a plain result.
pub trait ShellResultExt: Sized {
    fn from_status(command: String, status: ExitStatus) -> Self;

    fn status(self) -> Result<ExitStatus, ShellError>;

    fn code(&self) -> u8;
}

impl ShellResultExt for ShellResult {
    /// `Ok` for a status of zero, the status as an error for any other.
    fn from_status(command: String, status: ExitStatus) -> (r: ShellResult)
        ensures
            r == spec_from_status(command, status),
    {
        if status.success() {
            Ok(SuccessfulExit(PhantomData))
        } else {
            Err(ShellError::Status(command, status))
        }
    }

    /// The exit status behind a result: zero for `Ok`, the carried status for
    /// a command that failed, and the error itself where no status exists.
    fn status(self) -> (s: Result<ExitStatus, ShellError>)
        ensures
            s == spec_status(self),
    {
        match self {
            Ok(_) => Ok(ExitStatus::from_raw(0)),
            Err(ShellError::Status(_, status)) => Ok(status),
            Err(error) => Err(error),
        }
    }

    /// The exit code to report for a result: zero for `Ok`, the command's own
    /// code where it exited with one, and one for everything else.
    fn code(&self) -> (c: u8)
        ensures
            c == spec_code(*self),
    {
        match self {
            Ok(_) => 0,
            Err(ShellError::Status(_, status)) => {
                match status.code() {
                    Some(c) => {
                        proof {
                            lemma_status_fields(status.raw);
                        }
                        c as u8
                    },
                    None => 1,
                }
            },
            Err(_) => 1,
        }
    }
}

} // verus!

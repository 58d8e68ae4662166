//! The few facts about the operating system that the supervisor relies on:
//! how a wait status is laid out, which numbers the signals have, and where
//! the last error code is found.

use vstd::prelude::*;

verus! {

/// The exit code of a child whose supervised closure returned instead of
/// replacing or ending the process.
pub const EXIT_FELL_THROUGH: i32 = 1;

/// The exit code reserved for a child whose supervised closure panicked.
pub const EXIT_PANICKED: i32 = 101;

/// The signal number under which a spawn refused during shutdown is reported.
pub const SPAWN_REFUSED: u8 = 101;

/// The offset that turns a signal number into a conventional exit code.
pub const SIGNAL_EXIT_BASE: i32 = 128;

/// Whether a raw wait status reports a normal exit: its low seven bits are
/// clear.
pub open spec fn spec_exited(status: i32) -> bool {
    status & 0x7f == 0
}

/// The exit code carried in bits 8 to 15 of a raw wait status.
pub open spec fn spec_exit_code(status: i32) -> i32 {
    (status >> 8) & 0xff
}

/// Whether a raw wait status reports death by a signal: its low seven bits
/// are neither all clear (exited) nor all set (stopped).
pub open spec fn spec_signaled(status: i32) -> bool {
    status & 0x7f != 0 && status & 0x7f != 0x7f
}

/// The terminating signal carried in the low seven bits of a raw wait status.
pub open spec fn spec_term_signal(status: i32) -> i32 {
    status & 0x7f
}

/// The ranges of the two payloads, and that no status is both an exit and a
/// death by signal.
pub proof fn lemma_status_fields(status: i32)
    ensures
        0 <= spec_exit_code(status) <= 255,
        0 <= spec_term_signal(status) <= 127,
        !(spec_exited(status) && spec_signaled(status)),
        spec_signaled(status) ==> 1 <= spec_term_signal(status) <= 126,
        status == 0 ==> spec_exited(status) && spec_exit_code(status) == 0,
{
    assert(0 <= (status >> 8) & 0xff <= 255) by (bit_vector);
    assert(0 <= status & 0x7f <= 127) by (bit_vector);
    assert(status == 0 ==> status & 0x7f == 0 && (status >> 8) & 0xff == 0) by (bit_vector);
}

/// Calls `libc::WIFEXITED`, which tests that the low seven bits of the status
/// are clear.
#[verifier::external_body]
pub(crate) fn exited(status: i32) -> (r: bool)
    ensures
        r == spec_exited(status),
{
    libc::WIFEXITED(status)
}

/// Calls `libc::WEXITSTATUS`, which shifts the status right by eight bits and
/// keeps the low byte.
#[verifier::external_body]
pub(crate) fn exit_code(status: i32) -> (r: i32)
    ensures
        r == spec_exit_code(status),
{
    libc::WEXITSTATUS(status)
}

/// Calls `libc::WIFSIGNALED`, which adds one to the low seven bits and tests
/// that the sum, taken as a signed byte, is at least two: the bits are
/// neither 0 nor 0x7f.
#[verifier::external_body]
pub(crate) fn signaled(status: i32) -> (r: bool)
    ensures
        r == spec_signaled(status),
{
    libc::WIFSIGNALED(status)
}

/// Calls `libc::WTERMSIG`, which keeps the low seven bits of the status.
#[verifier::external_body]
pub(crate) fn term_signal(status: i32) -> (r: i32)
    ensures
        r == spec_term_signal(status),
{
    libc::WTERMSIG(status)
}

/// The number of the termination signal.
pub open spec fn spec_sigterm() -> i32 {
    15
}

/// The number of the interrupt signal.
pub open spec fn spec_sigint() -> i32 {
    2
}

/// Reads `libc::SIGTERM`, which is 15 on every target this crate builds for.
#[verifier::external_body]
pub(crate) fn sigterm_number() -> (r: i32)
    ensures
        r == spec_sigterm(),
{
    libc::SIGTERM
}

/// Reads `libc::SIGINT`, which is 2 on every target this crate builds for.
#[verifier::external_body]
pub(crate) fn sigint_number() -> (r: i32)
    ensures
        r == spec_sigint(),
{
    libc::SIGINT
}

/// Calls `errno::errno` and hands back the code inside. The value is
/// whatever the last failing system call on this thread left behind, so
/// nothing is claimed of it.
#[verifier::external_body]
pub(crate) fn last_errno() -> i32 {
    errno::errno().0
}

/// Calls `to_string` on an `errno::Errno`, which asks the system to describe
/// the error code. The words depend on the system and its locale, so nothing
/// is claimed of them.
#[verifier::external_body]
pub(crate) fn errno_text(code: i32) -> String {
    errno::Errno(code).to_string()
}

/// Calls `to_string` on a `std::io::Error`. The words are the system's or
/// those of whoever made the error, so nothing is claimed of them.
#[verifier::external_body]
pub(crate) fn io_error_text(error: &std::io::Error) -> String {
    error.to_string()
}

} // verus!

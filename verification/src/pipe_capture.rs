//! The pipe that carries a child's output to its parent.

use crate::request::{Pipe, SysCall};
use crate::result::{check_errno, ok, ShellError, ShellResult, SuccessfulExit};
use vstd::prelude::*;

verus! {

/// The two ends of a capture pipe, each held until it is closed. After a
/// `fork` both sides hold both ends; the parent keeps the read end and the
/// child the write end.
#[derive(Debug)]
pub struct PipeCapture {
    read_pipe: Option<i32>,
    write_pipe: Option<i32>,
}

impl PipeCapture {
    /// The read end, while it is open.
    pub closed spec fn read_end(self) -> Option<i32> {
        self.read_pipe
    }

    /// The write end, while it is open.
    pub closed spec fn write_end(self) -> Option<i32> {
        self.write_pipe
    }

    /// The `close` for an end that is open, and nothing for one that is not.
    pub open spec fn close_calls(end: Option<i32>) -> Seq<SysCall> {
        match end {
            Some(fd) => seq![SysCall::Close(fd)],
            None => Seq::empty(),
        }
    }

    /// Takes in what `pipe` returned and the descriptors it stored: the
    /// capture with both ends open, or the error of the call.
    pub fn new(returned: i32, pipe: Pipe) -> (r: Result<PipeCapture, ShellError>)
        ensures
            returned != -1 ==> r is Ok && r->Ok_0.read_end() == Some(pipe.read)
                && r->Ok_0.write_end() == Some(pipe.write),
            returned == -1 ==> r is Err && r->Err_0 is Errno && r->Err_0->Errno_0 == "pipe",
    {
        match check_errno("pipe", returned) {
            Ok(_) => Ok(PipeCapture { read_pipe: Some(pipe.read), write_pipe: Some(pipe.write) }),
            Err(error) => Err(error),
        }
    }

    /// The descriptor to read the child's output from, while it is open.
    pub fn reader(&self) -> (fd: Option<i32>)
        ensures
            fd == self.read_end(),
    {
        self.read_pipe
    }

    /// Whether the write end is open, so that writing can start.
    pub fn can_write(&self) -> (b: bool)
        ensures
            b == self.write_end() is Some,
    {
        self.write_pipe.is_some()
    }

    fn close_silently(end: &mut Option<i32>, calls: &mut Vec<SysCall>)
        ensures
            *final(end) is None,
            final(calls)@ == old(calls)@ + Self::close_calls(*old(end)),
    {
        if let Some(fd) = *end {
            calls.push(SysCall::Close(fd));
        }
        *end = None;
    }

    /// Settles the parent's side: the write end is given up. The calls to
    /// make come back; a failing `close` is of no account.
    pub fn start_reading(&mut self) -> (calls: Vec<SysCall>)
        ensures
            calls@ == Self::close_calls(old(self).write_end()),
            final(self).write_end() is None,
            final(self).read_end() == old(self).read_end(),
    {
        let mut calls: Vec<SysCall> = Vec::new();
        Self::close_silently(&mut self.write_pipe, &mut calls);
        calls
    }

    /// Settles the child's side and spends the capture: the read end is
    /// given up, and the write end is tied to the standard output with
    /// `dup2`, whose return value goes to `finish_writing`. The write end
    /// must still be open, which `can_write` tells.
    pub fn start_writing(self) -> (calls: Vec<SysCall>)
        requires
            self.write_end() is Some,
        ensures
            calls@ == Self::close_calls(self.read_end()) + seq![
                SysCall::Dup2 { from: 1, to: self.write_end()->0 },
            ],
    {
        let mut capture = self;
        let mut calls: Vec<SysCall> = Vec::new();
        Self::close_silently(&mut capture.read_pipe, &mut calls);
        match capture.write_pipe {
            Some(fd) => {
                calls.push(SysCall::Dup2 { from: 1, to: fd });
            },
            None => {},
        }
        calls
    }

    /// Reads the return value of the `dup2` that `start_writing` asked for.
    pub fn finish_writing(returned: i32) -> (r: ShellResult)
        ensures
            returned != -1 ==> r == Ok::<SuccessfulExit, ShellError>(SuccessfulExit::unit()),
            returned == -1 ==> r is Err && r->Err_0 is Errno && r->Err_0->Errno_0 == "dup2",
    {
        match check_errno("dup2", returned) {
            Ok(_) => ok(),
            Err(error) => Err(error),
        }
    }

    /// What is left to do when the capture is given up: every end that is
    /// still open is closed, the read end first.
    pub fn release(&mut self) -> (calls: Vec<SysCall>)
        ensures
            calls@ == Self::close_calls(old(self).read_end()) + Self::close_calls(
                old(self).write_end(),
            ),
            final(self).read_end() is None,
            final(self).write_end() is None,
    {
        let mut calls: Vec<SysCall> = Vec::new();
        Self::close_silently(&mut self.read_pipe, &mut calls);
        Self::close_silently(&mut self.write_pipe, &mut calls);
        calls
    }
}

} // verus!

//! The decisions of the capture loop.
//!
//! Reading frames from a raw socket is the caller's work. What is decided
//! after each attempt to read stands here: whether the frame is handed on,
//! an error is reported, or the read is tried again.
use vstd::prelude::*;

verus! {

/// The size of the buffer that capture receives frames into.
pub const BUFFER_SIZE: usize = 655350;

/// The socket option of level `SOL_PACKET` that makes a socket ignore the
/// frames that the machine itself sends.
pub const PACKET_IGNORE_OUTGOING: i32 = 23;

/// What can go wrong during capture.
#[derive(Debug, Clone, Copy, PartialEq, Eq, Structural)]
pub enum CaptureError {
    /// A system call failed with this error number.
    SystemCallFailure(i32),
    /// A frame was longer than the buffer it was received into.
    BufferUndersize { required: usize, capacity: usize },
}

/// What came of one attempt to read a frame from the socket.
#[derive(Debug, Clone, Copy, PartialEq, Eq, Structural)]
pub enum Attempt {
    /// A frame of this length on the wire was received.
    Received(usize),
    /// The read failed with this error number.
    Failed(i32),
    /// The socket was not ready after all.
    WouldBlock,
}

/// What the capture loop does next.
#[derive(Debug, Clone, Copy, PartialEq, Eq, Structural)]
pub enum Step {
    /// Hand on the first bytes of the buffer, as many as given.
    Deliver(usize),
    /// Report the error. The frame, if there was one, is discarded.
    Report(CaptureError),
    /// Wait for the socket to become readable and read again.
    Retry,
}

/// Checks a frame of `len` bytes on the wire against a buffer of
/// `capacity` bytes: the frame's length where it fits, an error where the
/// buffer holds only its beginning.
pub fn check_received(len: usize, capacity: usize) -> (r: Result<usize, CaptureError>)
    ensures
        len <= capacity ==> r == Ok::<usize, CaptureError>(len),
        len > capacity ==> r == Err::<usize, CaptureError>(
            CaptureError::BufferUndersize { required: len, capacity },
        ),
{
    if len > capacity {
        Err(CaptureError::BufferUndersize { required: len, capacity })
    } else {
        Ok(len)
    }
}

/// What to do after `attempt`, the buffer holding `capacity` bytes.
pub open spec fn step_after(attempt: Attempt, capacity: usize) -> Step {
    match attempt {
        Attempt::Received(len) => if len > capacity {
            Step::Report(CaptureError::BufferUndersize { required: len, capacity })
        } else {
            Step::Deliver(len)
        },
        Attempt::Failed(errno) => Step::Report(CaptureError::SystemCallFailure(errno)),
        Attempt::WouldBlock => Step::Retry,
    }
}

/// Decides what the capture loop does after one attempt to read.
pub fn after_attempt(attempt: Attempt, capacity: usize) -> (step: Step)
    ensures
        step == step_after(attempt, capacity),
{
    match attempt {
        Attempt::Received(len) => match check_received(len, capacity) {
            Ok(len) => Step::Deliver(len),
            Err(error) => Step::Report(error),
        },
        Attempt::Failed(errno) => Step::Report(CaptureError::SystemCallFailure(errno)),
        Attempt::WouldBlock => Step::Retry,
    }
}

} // verus!

//! The decisions of one whole run: whether the caller's command runs at
//! all, and how the run's result becomes the process's exit. The result is
//! the command's own; teardown never changes it.
use vstd::prelude::*;
use crate::commander::Signal;
use crate::error::Error;

verus! {

/// The interrupt signal's number.
pub const SIGINT: Signal = 2;

/// How the process ends.
#[derive(Debug, PartialEq, Eq, Structural, Clone, Copy)]
pub enum Exit {
    /// Exit with this code.
    Code(i32),
    /// Raise this signal against the process itself.
    Reraise(Signal),
}

/// The result of the caller's command, unless a signal was already pending
/// when it was due to start.
pub fn test_or_interrupted(pending: Option<Signal>) -> (r: Option<Error>)
    ensures
        match pending {
            Some(n) => r == Some(Error::Interrupted(n)),
            None => r is None,
        },
{
    match pending {
        Some(n) => Some(Error::Interrupted(n)),
        None => None,
    }
}

/// The exit code of a signal that ended the run: `128` plus its number,
/// capped at the largest code.
pub open spec fn signal_code(n: Signal) -> i32 {
    if n <= i32::MAX - 128 {
        (128 + n) as i32
    } else {
        i32::MAX
    }
}

/// How the run's result ends the process: the command's own code on
/// success; `1` for a usage error; `2` for a failed infrastructure command,
/// an I/O failure or a control error; the interrupt signal raised again; for
/// another signal, `128` plus its number.
pub fn exit_for(r: &Result<i32, Error>) -> (x: Exit)
    ensures
        match r {
            Ok(c) => x == Exit::Code(*c),
            Err(Error::Usage(_)) => x == Exit::Code(1),
            Err(Error::NonZero(_, _)) => x == Exit::Code(2),
            Err(Error::IoError(_)) => x == Exit::Code(2),
            Err(Error::ControlError(_)) => x == Exit::Code(2),
            Err(Error::Interrupted(n)) => if *n == SIGINT {
                x == Exit::Reraise(SIGINT)
            } else {
                x == Exit::Code(signal_code(*n))
            },
        },
{
    match r {
        Ok(c) => Exit::Code(*c),
        Err(Error::Usage(_)) => Exit::Code(1),
        Err(Error::NonZero(_, _)) => Exit::Code(2),
        Err(Error::IoError(_)) => Exit::Code(2),
        Err(Error::ControlError(_)) => Exit::Code(2),
        Err(Error::Interrupted(n)) => if *n == SIGINT {
            Exit::Reraise(SIGINT)
        } else if *n <= i32::MAX - 128 {
            Exit::Code(128 + *n)
        } else {
            Exit::Code(i32::MAX)
        },
    }
}

} // verus!

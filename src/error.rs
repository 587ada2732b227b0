//! The harness's own failures.
use vstd::prelude::*;
use crate::commander::{NonZero, Signal};

verus! {

/// Why a run of the harness failed. Each variant maps to a process exit code
/// (see `crate::driver::exit_for`).
#[derive(Debug)]
pub enum Error {
    /// Bad invocation.
    Usage(String),
    /// An infrastructure command exited nonzero (or, as a negative code, died
    /// from a signal): its description and code.
    NonZero(String, i32),
    /// A collaborator broke the expected shape of its output, or the address
    /// pool is exhausted.
    ControlError(String),
    /// A filesystem, lock or pipe failure, as its message.
    IoError(String),
    /// An external signal preempted an infrastructure step.
    Interrupted(Signal),
}

impl From<NonZero> for Error {
    fn from(e: NonZero) -> (r: Error) {
        match e {
            NonZero::NonZero(d, c) => Error::NonZero(d, c),
            NonZero::Interrupted(n) => Error::Interrupted(n),
        }
    }
}

impl vstd::std_specs::convert::FromSpecImpl<NonZero> for Error {
    open spec fn obeys_from_spec() -> bool {
        true
    }

    open spec fn from_spec(e: NonZero) -> Error {
        match e {
            NonZero::NonZero(d, c) => Error::NonZero(d, c),
            NonZero::Interrupted(n) => Error::Interrupted(n),
        }
    }
}

} // verus!

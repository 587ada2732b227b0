//! How the outcome of one external command is classified.
use vstd::prelude::*;

verus! {

/// A signal number.
pub type Signal = i32;

/// A command that did not succeed.
#[derive(Debug)]
pub enum NonZero {
    /// The command's description and its exit code; a negative code is the
    /// number of the signal that killed it.
    NonZero(String, i32),
    /// An external signal arrived while the command ran.
    Interrupted(Signal),
}

/// What a non-blocking wait reported of the child.
#[derive(Debug)]
pub enum ChildState {
    /// It exited with this code.
    Exited(i32),
    /// A signal with this number killed it.
    Signaled(u8),
    /// It has not changed state yet.
    Running,
}

/// An event of the signal trap that watches a running command.
#[derive(Debug)]
pub enum TrapEvent {
    /// The child changed state; a non-blocking wait then reported this.
    ChildChanged(ChildState),
    /// Another trapped signal arrived.
    Other(Signal),
}

/// What the supervisor of a running command does next.
#[derive(Debug)]
pub enum Supervision {
    /// Keep waiting for trap events.
    Wait,
    /// The command is over, with this outcome.
    Finished(Result<(), NonZero>),
    /// Send the child a termination signal, then report `Interrupted`.
    Terminate(Signal),
}

/// The outcome of a command that ended in state `state`; `None` while it runs.
pub open spec fn ended_spec(description: Seq<char>, state: ChildState) -> Option<Result<(), (Seq<char>, int)>> {
    match state {
        ChildState::Exited(code) => if code == 0 {
            Some(Ok(()))
        } else {
            Some(Err((description, code as int)))
        },
        ChildState::Signaled(sig) => Some(Err((description, -(sig as int)))),
        ChildState::Running => None,
    }
}

/// The outcome of a command that ended: success on exit code 0, otherwise
/// `NonZero` with its description and the exit code, or the killing signal's
/// number negated.
pub fn ended(description: &String, state: ChildState) -> (r: Option<Result<(), NonZero>>)
    ensures
        match ended_spec(description@, state) {
            None => r is None,
            Some(Ok(())) => r matches Some(Ok(())),
            Some(Err((d, c))) => r matches Some(Err(NonZero::NonZero(d2, c2))) && d2@ == d && c2 == c,
        },
{
    match state {
        ChildState::Exited(code) => if code == 0 {
            Some(Ok(()))
        } else {
            Some(Err(NonZero::NonZero(description.clone(), code)))
        },
        ChildState::Signaled(sig) => Some(Err(NonZero::NonZero(description.clone(), 0 - sig as i32))),
        ChildState::Running => None,
    }
}

/// One step of supervising a running command: a change of the child's state
/// ends the supervision once the child has exited or was killed; any other
/// trapped signal ends it by terminating the child.
pub fn supervise(description: &String, event: TrapEvent) -> (r: Supervision)
    ensures
        match event {
            TrapEvent::ChildChanged(state) => match ended_spec(description@, state) {
                None => r is Wait,
                Some(Ok(())) => r matches Supervision::Finished(Ok(())),
                Some(Err((d, c))) => r matches Supervision::Finished(Err(NonZero::NonZero(d2, c2)))
                    && d2@ == d && c2 == c,
            },
            TrapEvent::Other(sig) => r == Supervision::Terminate(sig),
        },
{
    match event {
        TrapEvent::ChildChanged(state) => match ended(description, state) {
            None => Supervision::Wait,
            Some(o) => Supervision::Finished(o),
        },
        TrapEvent::Other(sig) => Supervision::Terminate(sig),
    }
}

/// The outcome of a command whose standard output was captured: the text on
/// a zero exit, otherwise as `ended` says.
pub fn captured(description: &String, output: String, state: ChildState) -> (r: Option<Result<String, NonZero>>)
    ensures
        match ended_spec(description@, state) {
            None => r is None,
            Some(Ok(())) => r matches Some(Ok(o)) && o@ == output@,
            Some(Err((d, c))) => r matches Some(Err(NonZero::NonZero(d2, c2))) && d2@ == d && c2 == c,
        },
{
    match ended(description, state) {
        None => None,
        Some(Ok(())) => Some(Ok(output)),
        Some(Err(e)) => Some(Err(e)),
    }
}

} // verus!

use fragile::commander::{captured, ended, supervise, ChildState, NonZero, Supervision, TrapEvent};
use fragile::error::Error;

fn desc() -> String {
    "\"true\"".to_string()
}

#[test]
fn clean_exit_succeeds() {
    assert!(matches!(ended(&desc(), ChildState::Exited(0)), Some(Ok(()))));
}

#[test]
fn nonzero_exit_keeps_code() {
    match ended(&desc(), ChildState::Exited(3)) {
        Some(Err(NonZero::NonZero(d, 3))) => assert_eq!(d, desc()),
        other => panic!("unexpected {:?}", other),
    }
}

#[test]
fn fatal_signal_is_negated() {
    assert!(matches!(ended(&desc(), ChildState::Signaled(9)), Some(Err(NonZero::NonZero(_, -9)))));
}

#[test]
fn running_child_keeps_waiting() {
    assert!(ended(&desc(), ChildState::Running).is_none());
    assert!(matches!(supervise(&desc(), TrapEvent::ChildChanged(ChildState::Running)), Supervision::Wait));
}

#[test]
fn supervision_steps() {
    assert!(matches!(
        supervise(&desc(), TrapEvent::ChildChanged(ChildState::Exited(0))),
        Supervision::Finished(Ok(()))
    ));
    assert!(matches!(
        supervise(&desc(), TrapEvent::ChildChanged(ChildState::Exited(5))),
        Supervision::Finished(Err(NonZero::NonZero(_, 5)))
    ));
    assert!(matches!(supervise(&desc(), TrapEvent::Other(15)), Supervision::Terminate(15)));
}

#[test]
fn captured_output() {
    match captured(&desc(), "Leader=7\n".to_string(), ChildState::Exited(0)) {
        Some(Ok(o)) => assert_eq!(o, "Leader=7\n"),
        other => panic!("unexpected {:?}", other),
    }
    match captured(&desc(), "out".to_string(), ChildState::Exited(1)) {
        Some(Err(NonZero::NonZero(d, 1))) => assert_eq!(d, desc()),
        other => panic!("unexpected {:?}", other),
    }
}

#[test]
fn nonzero_converts_to_error() {
    assert!(matches!(Error::from(NonZero::NonZero(desc(), 4)), Error::NonZero(_, 4)));
    assert!(matches!(Error::from(NonZero::Interrupted(15)), Error::Interrupted(15)));
}

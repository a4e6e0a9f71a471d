use locket::args::{InitArgs, QueryArgs, Subcommands};
use locket::lock::{InstanceLock, LockError};
use locket::outcome::{CreateOutcome, RemoveOutcome};
use locket::session::{Action, Stage};

#[test]
fn the_lock_goes_to_the_one_who_created_the_marker() {
    let lock = InstanceLock::acquire("/tmp/gondolin.lck", CreateOutcome::Created).unwrap();
    assert_eq!(lock.path(), "/tmp/gondolin.lck");
    assert!(lock.release(RemoveOutcome::Removed).is_ok());
}

#[test]
fn a_second_instance_is_told_that_the_lock_is_held() {
    let first = InstanceLock::acquire("/tmp/gondolin.lck", CreateOutcome::Created);
    assert!(first.is_ok());
    let second = InstanceLock::acquire("/tmp/gondolin.lck", CreateOutcome::AlreadyExists);
    match second {
        Err(LockError::AlreadyLocked) => (),
        other => panic!("unexpected {:?}", other),
    }
    assert_eq!(
        LockError::AlreadyLocked.message(),
        "An instance of Gondolin is already running, please kill it or wait for it to quit before trying to run another instance"
    );
}

#[test]
fn other_failures_are_told_apart_from_a_held_lock() {
    match InstanceLock::acquire("/x", CreateOutcome::Failed("denied".to_string())) {
        Err(LockError::Io(why)) => assert_eq!(why, "denied"),
        other => panic!("unexpected {:?}", other),
    }
}

#[test]
fn a_marker_that_is_gone_at_release_is_reported() {
    let lock = InstanceLock::acquire("/x", CreateOutcome::Created).unwrap();
    match lock.release(RemoveOutcome::NotFound) {
        Err(LockError::Missing) => (),
        other => panic!("unexpected {:?}", other),
    }
    let lock = InstanceLock::acquire("/x", CreateOutcome::Created).unwrap();
    match lock.release(RemoveOutcome::Failed("busy".to_string())) {
        Err(LockError::Io(why)) => assert_eq!(why, "busy"),
        other => panic!("unexpected {:?}", other),
    }
    assert_eq!(
        LockError::Missing.message(),
        "Tried to remove the lockfile, but it was already gone"
    );
}

#[test]
fn only_initialisation_works_without_a_store() {
    assert!(!Subcommands::Init(InitArgs { port: Some(1) }).needs_store());
    assert!(Subcommands::New.needs_store());
    assert!(Subcommands::Query(QueryArgs { name: None }).needs_store());
    assert!(Subcommands::Remove.needs_store());
    assert!(Subcommands::Serve.needs_store());
}

#[test]
fn a_run_takes_the_lock_works_saves_and_gives_the_lock_back() {
    let mut stage = Stage::begin(&Subcommands::New);
    let mut seen = Vec::new();
    loop {
        let action = stage.action();
        seen.push(action);
        if matches!(action, Action::Exit(_)) {
            break;
        }
        stage = stage.advance(true);
    }
    assert_eq!(
        seen,
        vec![
            Action::TakeLock,
            Action::OpenStore,
            Action::RunCommand,
            Action::Persist,
            Action::ReleaseLock,
            Action::Exit(0)
        ]
    );
}

#[test]
fn initialisation_needs_no_lock() {
    let stage = Stage::begin(&Subcommands::Init(InitArgs { port: None }));
    assert_eq!(stage.action(), Action::Initialise);
    assert_eq!(stage.advance(true).action(), Action::Exit(0));
    assert_eq!(stage.advance(false).action(), Action::Exit(1));
}

#[test]
fn a_failure_ends_the_run_with_a_nonzero_code_after_the_lock_is_given_back() {
    let locking = Stage::begin(&Subcommands::Serve);
    assert_eq!(locking.advance(false).action(), Action::Exit(1));
    let opening = locking.advance(true);
    assert_eq!(opening, Stage::Opening);
    let after_failed_open = opening.advance(false);
    assert_eq!(after_failed_open.action(), Action::ReleaseLock);
    assert_eq!(after_failed_open.advance(true).action(), Action::Exit(1));
    let working = opening.advance(true);
    assert_eq!(working.advance(false), Stage::Releasing { failed: true });
    let saving = working.advance(true);
    assert_eq!(saving.advance(false), Stage::Releasing { failed: true });
    let releasing = saving.advance(true);
    assert_eq!(releasing, Stage::Releasing { failed: false });
    assert_eq!(releasing.advance(false), Stage::Ended { failed: true });
    assert_eq!(releasing.advance(true).advance(false), Stage::Ended { failed: false });
}

use vstd::prelude::*;

use crate::outcome::{CreateOutcome, RemoveOutcome};

verus! {

/// Why the instance lock could not be taken or given back.
#[derive(Debug)]
pub enum LockError {
    /// The marker file is there: another instance is running.
    AlreadyLocked,
    /// The marker file was gone when the lock was given back.
    Missing,
    /// Any other failure, with the system's message.
    Io(String),
}

/// The token of the running instance. It stands for a marker file that this
/// process created and has not removed yet; the file's presence alone is the
/// signal, it has no content.
#[derive(Debug)]
pub struct InstanceLock {
    path: String,
}

impl InstanceLock {
    /// Where the marker file is.
    pub closed spec fn marker(&self) -> Seq<char> {
        self.path@
    }

    /// The lock, after an attempt to create the marker file at `path` anew.
    ///
    /// Only a marker that this attempt created gives the lock. A marker that
    /// was already there means that another instance holds it.
    pub fn acquire(path: &str, created: CreateOutcome) -> (lock: Result<InstanceLock, LockError>)
        ensures
            match created {
                CreateOutcome::Created => (lock matches Ok(held) && held.marker() == path@),
                CreateOutcome::AlreadyExists => lock matches Err(LockError::AlreadyLocked),
                CreateOutcome::Failed(why) => (lock matches Err(LockError::Io(text)) && text
                    == why),
            },
    {
        match created {
            CreateOutcome::Created => Ok(InstanceLock { path: path.to_owned() }),
            CreateOutcome::AlreadyExists => Err(LockError::AlreadyLocked),
            CreateOutcome::Failed(why) => Err(LockError::Io(why)),
        }
    }

    /// The path of the marker file, to remove it when the lock is given back.
    pub fn path(&self) -> (path: &str)
        ensures
            path@ == self.marker(),
    {
        self.path.as_str()
    }

    /// Gives the lock back, after an attempt to remove the marker file.
    ///
    /// A marker that was already gone is reported: something else removed
    /// it, and the lock did not protect what it was meant to.
    pub fn release(self, removed: RemoveOutcome) -> (done: Result<(), LockError>)
        ensures
            match removed {
                RemoveOutcome::Removed => done is Ok,
                RemoveOutcome::NotFound => done matches Err(LockError::Missing),
                RemoveOutcome::Failed(why) => (done matches Err(LockError::Io(text)) && text
                    == why),
            },
    {
        match removed {
            RemoveOutcome::Removed => Ok(()),
            RemoveOutcome::NotFound => Err(LockError::Missing),
            RemoveOutcome::Failed(why) => Err(LockError::Io(why)),
        }
    }
}

impl LockError {
    /// What the user is told.
    pub fn message(&self) -> (text: &'static str)
        ensures
            text@ == match *self {
                LockError::AlreadyLocked =>
                    "An instance of Gondolin is already running, please kill it or wait for it to quit before trying to run another instance"@,
                LockError::Missing => "Tried to remove the lockfile, but it was already gone"@,
                LockError::Io(_) => "Failed to reach the lockfile"@,
            },
    {
        match self {
            LockError::AlreadyLocked =>
                "An instance of Gondolin is already running, please kill it or wait for it to quit before trying to run another instance",
            LockError::Missing => "Tried to remove the lockfile, but it was already gone",
            LockError::Io(_) => "Failed to reach the lockfile",
        }
    }
}

/// Whether creating a file that must not exist can end in `outcome` when the
/// file's presence before the attempt is `present`: it is created only where
/// it was absent, and found only where it was present.
pub open spec fn may_create(present: bool, outcome: CreateOutcome) -> bool {
    match outcome {
        CreateOutcome::Created => !present,
        CreateOutcome::AlreadyExists => present,
        CreateOutcome::Failed(_) => true,
    }
}

/// Whether the file is there after the attempt.
pub open spec fn present_after(present: bool, outcome: CreateOutcome) -> bool {
    match outcome {
        CreateOutcome::Created => true,
        _ => present,
    }
}

/// Whether an attempt that ended in `outcome` gives the lock.
pub open spec fn gives_lock(outcome: CreateOutcome) -> bool {
    outcome is Created
}

/// While one instance holds the lock, a second attempt does not get it: on a
/// file system where exclusive creation behaves as [`may_create`] says, two
/// attempts with no removal in between never both give the lock, and the
/// second, unless the system fails otherwise, finds the marker in place.
pub proof fn lemma_second_acquire_fails(present: bool, first: CreateOutcome, second: CreateOutcome)
    requires
        may_create(present, first),
        gives_lock(first),
        may_create(present_after(present, first), second),
    ensures
        !gives_lock(second),
        second is AlreadyExists || second is Failed,
{
}

} // verus!

use vstd::prelude::*;

use crate::args::Subcommands;

verus! {

/// Where one run of the program stands.
#[derive(Debug, Clone, Copy, PartialEq, Eq, Structural)]
pub enum Stage {
    /// Creating configuration and store; no lock is involved.
    Initialising,
    /// Trying to take the instance lock.
    Locking,
    /// Loading the store; the lock is held.
    Opening,
    /// Carrying out the command, or serving requests; the lock is held.
    Working,
    /// Writing the store to its file; the lock is held.
    Saving,
    /// Giving the lock back; `failed` says whether something went wrong
    /// before.
    Releasing { failed: bool },
    /// The run is over; `failed` says whether it went wrong.
    Ended { failed: bool },
}

/// What the program is to do next.
#[derive(Debug, Clone, Copy, PartialEq, Eq, Structural)]
pub enum Action {
    /// Create the configuration and an empty store.
    Initialise,
    /// Create the marker file, which must not exist.
    TakeLock,
    /// Read the store's file and load it.
    OpenStore,
    /// Carry out the command.
    RunCommand,
    /// Write the store to its file.
    Persist,
    /// Remove the marker file.
    ReleaseLock,
    /// Leave with this exit code.
    Exit(u8),
}

/// Whether the instance lock is held at this stage.
pub open spec fn holds_lock(stage: Stage) -> bool {
    stage is Opening || stage is Working || stage is Saving || stage is Releasing
}

/// The stage at which a run starts: initialisation works without the lock,
/// everything else begins by taking it.
pub open spec fn first_stage(command: Subcommands) -> Stage {
    if command is Init {
        Stage::Initialising
    } else {
        Stage::Locking
    }
}

/// What is to be done at a stage.
pub open spec fn action_at(stage: Stage) -> Action {
    match stage {
        Stage::Initialising => Action::Initialise,
        Stage::Locking => Action::TakeLock,
        Stage::Opening => Action::OpenStore,
        Stage::Working => Action::RunCommand,
        Stage::Saving => Action::Persist,
        Stage::Releasing { .. } => Action::ReleaseLock,
        Stage::Ended { failed } => Action::Exit(
            if failed {
                1u8
            } else {
                0u8
            },
        ),
    }
}

/// The stage that follows, given whether what was to be done succeeded.
///
/// A run that holds the lock gives it back before it ends, also after a
/// failure; the store is written only after a command that succeeded.
pub open spec fn stage_after(stage: Stage, succeeded: bool) -> Stage {
    match stage {
        Stage::Initialising => Stage::Ended { failed: !succeeded },
        Stage::Locking => if succeeded {
            Stage::Opening
        } else {
            Stage::Ended { failed: true }
        },
        Stage::Opening => if succeeded {
            Stage::Working
        } else {
            Stage::Releasing { failed: true }
        },
        Stage::Working => if succeeded {
            Stage::Saving
        } else {
            Stage::Releasing { failed: true }
        },
        Stage::Saving => Stage::Releasing { failed: !succeeded },
        Stage::Releasing { failed } => Stage::Ended { failed: failed || !succeeded },
        Stage::Ended { failed } => Stage::Ended { failed },
    }
}

impl Stage {
    /// The stage at which a run of `command` starts.
    pub fn begin(command: &Subcommands) -> (stage: Stage)
        ensures
            stage == first_stage(*command),
    {
        if command.needs_store() {
            Stage::Locking
        } else {
            Stage::Initialising
        }
    }

    /// What is to be done now.
    pub fn action(&self) -> (action: Action)
        ensures
            action == action_at(*self),
    {
        match self {
            Stage::Initialising => Action::Initialise,
            Stage::Locking => Action::TakeLock,
            Stage::Opening => Action::OpenStore,
            Stage::Working => Action::RunCommand,
            Stage::Saving => Action::Persist,
            Stage::Releasing { .. } => Action::ReleaseLock,
            Stage::Ended { failed } => Action::Exit(
                if *failed {
                    1
                } else {
                    0
                },
            ),
        }
    }

    /// The stage that follows, once what was to be done has succeeded or
    /// failed.
    pub fn advance(&self, succeeded: bool) -> (next: Stage)
        ensures
            next == stage_after(*self, succeeded),
    {
        match self {
            Stage::Initialising => Stage::Ended { failed: !succeeded },
            Stage::Locking => {
                if succeeded {
                    Stage::Opening
                } else {
                    Stage::Ended { failed: true }
                }
            },
            Stage::Opening => {
                if succeeded {
                    Stage::Working
                } else {
                    Stage::Releasing { failed: true }
                }
            },
            Stage::Working => {
                if succeeded {
                    Stage::Saving
                } else {
                    Stage::Releasing { failed: true }
                }
            },
            Stage::Saving => Stage::Releasing { failed: !succeeded },
            Stage::Releasing { failed } => Stage::Ended { failed: *failed || !succeeded },
            Stage::Ended { failed } => Stage::Ended { failed: *failed },
        }
    }
}

/// The stage reached from `stage` after the given outcomes, one per step.
pub open spec fn stage_after_all(stage: Stage, outcomes: Seq<bool>) -> Stage
    decreases outcomes.len(),
{
    if outcomes.len() == 0 {
        stage
    } else {
        stage_after(stage_after_all(stage, outcomes.drop_last()), outcomes.last())
    }
}

/// The lock is taken only by a successful [`Action::TakeLock`], given back
/// only by [`Action::ReleaseLock`], and never held when the run is over.
pub proof fn lemma_lock_discipline(stage: Stage, succeeded: bool)
    ensures
        !holds_lock(stage) && holds_lock(stage_after(stage, succeeded)) ==> stage is Locking
            && succeeded,
        holds_lock(stage) && !holds_lock(stage_after(stage, succeeded)) ==> stage is Releasing,
        stage_after(stage, succeeded) is Ended ==> !holds_lock(stage_after(stage, succeeded)),
        action_at(stage) is Exit ==> !holds_lock(stage),
{
}

/// A run ends within six steps, whatever succeeds or fails.
pub proof fn lemma_run_ends(command: Subcommands, outcomes: Seq<bool>)
    requires
        outcomes.len() >= 6,
    ensures
        stage_after_all(first_stage(command), outcomes) is Ended,
{
    let start = first_stage(command);
    let s0 = outcomes.take(0);
    let s1 = outcomes.take(1);
    let s2 = outcomes.take(2);
    let s3 = outcomes.take(3);
    let s4 = outcomes.take(4);
    let s5 = outcomes.take(5);
    let s6 = outcomes.take(6);
    assert(s1.drop_last() =~= s0);
    assert(s2.drop_last() =~= s1);
    assert(s3.drop_last() =~= s2);
    assert(s4.drop_last() =~= s3);
    assert(s5.drop_last() =~= s4);
    assert(s6.drop_last() =~= s5);
    assert(stage_after_all(start, s0) == start);
    assert(stage_after_all(start, s1) == stage_after(start, outcomes[0]));
    assert(stage_after_all(start, s2) == stage_after(stage_after_all(start, s1), outcomes[1]));
    assert(stage_after_all(start, s3) == stage_after(stage_after_all(start, s2), outcomes[2]));
    assert(stage_after_all(start, s4) == stage_after(stage_after_all(start, s3), outcomes[3]));
    assert(stage_after_all(start, s5) == stage_after(stage_after_all(start, s4), outcomes[4]));
    assert(stage_after_all(start, s6) == stage_after(stage_after_all(start, s5), outcomes[5]));
    assert(stage_after_all(start, s6) is Ended);
    lemma_ended_stays(start, outcomes, 6);
}

/// Once a run is over it stays over.
proof fn lemma_ended_stays(stage: Stage, outcomes: Seq<bool>, n: int)
    requires
        0 <= n <= outcomes.len(),
        stage_after_all(stage, outcomes.take(n)) is Ended,
    ensures
        stage_after_all(stage, outcomes) is Ended,
    decreases outcomes.len() - n,
{
    if n == outcomes.len() {
        assert(outcomes.take(n) =~= outcomes);
    } else {
        assert(outcomes.take(n + 1).drop_last() =~= outcomes.take(n));
        lemma_ended_stays(stage, outcomes, n + 1);
    }
}

/// A run ends without failure exactly if every step it took succeeded.
pub proof fn lemma_clean_exit(stage: Stage, succeeded: bool)
    requires
        stage_after(stage, succeeded) == (Stage::Ended { failed: false }),
        !(stage is Ended),
    ensures
        succeeded,
        stage == Stage::Initialising || stage == (Stage::Releasing { failed: false }),
{
}

} // verus!

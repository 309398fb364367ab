//! The lock-mode decision: whether a run must reuse, refresh, or refuse the
//! existing lockfile.

use vstd::prelude::*;

verus! {

use crate::errors::{DistError, ErrorKind};

/// How the caller wants the lockfile treated.
#[derive(Clone, Copy, Debug, PartialEq, Eq, Structural)]
pub enum LockMode {
    /// Use the lockfile when it is valid, else re-solve.
    Auto,
    /// Always resolve fresh, ignoring any lockfile.
    Unlock,
    /// Require a valid lockfile; fail otherwise.
    Locked,
}

/// What the validator found on disk.
#[derive(Clone, Copy, Debug, PartialEq, Eq, Structural)]
pub enum LockState {
    /// No lockfile exists.
    Missing,
    /// A lockfile exists and satisfies the manifest.
    PresentValid,
    /// A lockfile exists but no longer satisfies the manifest.
    PresentStale,
}

/// What the pipeline does next.
#[derive(Clone, Copy, Debug, PartialEq, Eq, Structural)]
pub enum LockAction {
    /// Skip the solver and reuse the locked records.
    Reuse,
    /// Run the solver and write a fresh lockfile.
    Resolve,
    /// Stop: a lockfile was required but none exists.
    FailMissing,
    /// Stop: the lockfile is stale and may not be refreshed.
    FailStale,
}

/// The decision table: `Unlock` always resolves; `Locked` demands a valid
/// lockfile and otherwise fails with the precise cause; `Auto` reuses a
/// valid lockfile and resolves in every other state.
pub open spec fn spec_decide(mode: LockMode, state: LockState) -> LockAction {
    match mode {
        LockMode::Unlock => LockAction::Resolve,
        LockMode::Locked => match state {
            LockState::Missing => LockAction::FailMissing,
            LockState::PresentValid => LockAction::Reuse,
            LockState::PresentStale => LockAction::FailStale,
        },
        LockMode::Auto => match state {
            LockState::PresentValid => LockAction::Reuse,
            LockState::Missing => LockAction::Resolve,
            LockState::PresentStale => LockAction::Resolve,
        },
    }
}

/// The lock state derived from what the run observed.
pub open spec fn spec_lock_state(lockfile_exists: bool, lock_valid: bool) -> LockState {
    if !lockfile_exists {
        LockState::Missing
    } else if lock_valid {
        LockState::PresentValid
    } else {
        LockState::PresentStale
    }
}

/// Decide the next step from the lock mode and the observed lock state.
pub fn decide(mode: LockMode, lockfile_exists: bool, lock_valid: bool) -> (r: LockAction)
    ensures
        r == spec_decide(mode, spec_lock_state(lockfile_exists, lock_valid)),
{
    match mode {
        LockMode::Unlock => LockAction::Resolve,
        LockMode::Locked => {
            if !lockfile_exists {
                LockAction::FailMissing
            } else if lock_valid {
                LockAction::Reuse
            } else {
                LockAction::FailStale
            }
        },
        LockMode::Auto => {
            if lockfile_exists && lock_valid {
                LockAction::Reuse
            } else {
                LockAction::Resolve
            }
        },
    }
}

/// Map the two mutually exclusive command-line flags onto a mode: both at
/// once is rejected before any work; `--unlock` wins over the default, then
/// `--locked`, then `Auto`.
pub fn lock_mode_from_flags(locked: bool, unlock: bool) -> (r: Result<LockMode, DistError>)
    ensures
        r is Ok <==> !(locked && unlock),
        r matches Ok(mode) ==> mode == (if unlock {
            LockMode::Unlock
        } else if locked {
            LockMode::Locked
        } else {
            LockMode::Auto
        }),
        r matches Err(e) ==> e.kind == ErrorKind::ManifestInvalid,
{
    if locked && unlock {
        return Err(DistError::new(
            ErrorKind::ManifestInvalid,
            String::from_str("the flags --locked and --unlock cannot be used together"),
        ));
    }
    if unlock {
        Ok(LockMode::Unlock)
    } else if locked {
        Ok(LockMode::Locked)
    } else {
        Ok(LockMode::Auto)
    }
}

/// A valid lockfile is reused under both `Auto` and `Locked`, and only a
/// resolve outcome ever rewrites the lockfile: `Reuse` is decided exactly
/// when the lockfile exists, is valid, and the mode is not `Unlock`.
pub proof fn lemma_reuse_exactly_when_valid(mode: LockMode, lockfile_exists: bool, lock_valid: bool)
    ensures
        spec_decide(mode, spec_lock_state(lockfile_exists, lock_valid)) == LockAction::Reuse
            <==> (lockfile_exists && lock_valid && mode != LockMode::Unlock),
{
}

} // verus!

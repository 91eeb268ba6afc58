//! Decisions behind the console's liveness marker.
//!
//! A running console holds an exclusive advisory lock (`flock(2)`) on a
//! well-known file in the temporary directory for its whole lifetime. A check
//! asks for a non-blocking *shared* lock on the same file: it is refused
//! exactly while a console holds the exclusive one. Opening the file, taking
//! the locks and sleeping between tries are the caller's work; this module
//! decides what each outcome means.

use vstd::prelude::*;

verus! {

/// Name of the lock file, inside the system's temporary directory.
pub const LOCK_NAME: &'static str = "tdk.lock";

/// How many times the exclusive lock is requested before giving up.
///
/// A concurrent check holds its shared lock for one system call, so a short
/// retry rides out that window; a lock held by another console never clears.
pub const ACQUIRE_ATTEMPTS: u32 = 5;

/// Milliseconds to sleep between two requests for the exclusive lock.
pub const ACQUIRE_BACKOFF_MS: u64 = 2;

/// What a check found when it opened the lock file read-only (never creating
/// it) and asked for a non-blocking shared lock.
#[derive(Clone, Copy, Debug, PartialEq, Eq, Structural)]
pub enum LockProbe {
    /// The file could not be opened: no console has ever run, or the
    /// temporary directory is unusable.
    Unavailable,
    /// The shared lock was granted: no exclusive lock is held.
    Granted,
    /// The shared lock was refused: a console holds the exclusive lock.
    Refused,
}

/// Is a console currently running, given what the probe of the lock file
/// found? Only a refused shared lock means a console is up; a missing file or
/// an unusable temporary directory means "no console we can see".
pub fn is_running(probe: LockProbe) -> (running: bool)
    ensures
        running <==> probe == LockProbe::Refused,
{
    match probe {
        LockProbe::Refused => true,
        LockProbe::Unavailable => false,
        LockProbe::Granted => false,
    }
}

/// What to do after one request for the exclusive lock.
#[derive(Clone, Copy, Debug, PartialEq, Eq, Structural)]
pub enum AcquireStep {
    /// The lock is held: keep the file open for the console's lifetime.
    Acquired,
    /// Sleep `ACQUIRE_BACKOFF_MS` milliseconds, then request again.
    Retry,
    /// Give up: the marker is unavailable (not a hard error).
    GiveUp,
}

/// The step taken after request number `attempt` (counting from 0) came back
/// `locked`.
pub open spec fn acquire_decision(attempt: int, locked: bool) -> AcquireStep {
    if locked {
        AcquireStep::Acquired
    } else if attempt + 1 < ACQUIRE_ATTEMPTS {
        AcquireStep::Retry
    } else {
        AcquireStep::GiveUp
    }
}

/// Decides what follows request number `attempt` (counting from 0) for the
/// exclusive lock, given whether it was granted. There is no sleep after the
/// last refused request.
pub fn acquire_step(attempt: u32, locked: bool) -> (step: AcquireStep)
    requires
        attempt < ACQUIRE_ATTEMPTS,
    ensures
        step == acquire_decision(attempt as int, locked),
{
    if locked {
        AcquireStep::Acquired
    } else if attempt + 1 < ACQUIRE_ATTEMPTS {
        AcquireStep::Retry
    } else {
        AcquireStep::GiveUp
    }
}

/// A transient refusal cannot make the console refuse to come up: every
/// refused request before the last allowed one is followed by a retry, the
/// acquisition gives up only after exactly `ACQUIRE_ATTEMPTS` refusals, and a
/// granted request always ends it with the lock held.
pub proof fn lemma_acquire_retries_until_last_attempt(attempt: int)
    requires
        0 <= attempt < ACQUIRE_ATTEMPTS,
    ensures
        acquire_decision(attempt, true) == AcquireStep::Acquired,
        acquire_decision(attempt, false) == AcquireStep::Retry <==> attempt + 1
            < ACQUIRE_ATTEMPTS,
        acquire_decision(attempt, false) == AcquireStep::GiveUp <==> attempt + 1
            == ACQUIRE_ATTEMPTS,
{
}

} // verus!

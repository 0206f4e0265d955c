//! The exclusive lock held for a whole backup run, so that a run from the
//! window and a scheduled run cannot create snapshots at the same time:
//! where its file lives, what a try to take it means, and how long a
//! scheduled run waits for it.

use vstd::prelude::*;
use crate::paths::path_join;

verus! {

/// `backup.run.lock` in the data directory.
pub fn run_lock_path_in(data_dir: &str) -> (p: String)
    ensures
        p@ == path_join(data_dir@, "backup.run.lock"@),
{
    crate::paths::join_path(data_dir, "backup.run.lock")
}

/// The run lock's file.
pub fn run_lock_path(data_dir_override: &Option<String>) -> (p: String)
    ensures
        exists|d: Option<Seq<char>>| p@ == path_join(crate::config::data_dir_of(crate::config::opt_view(*data_dir_override), d), "backup.run.lock"@),
{
    let d = crate::config::Config::data_dir(data_dir_override);
    let p = run_lock_path_in(d.as_str());
    let ghost w = choose|w: Option<Seq<char>>| d@ == crate::config::data_dir_of(crate::config::opt_view(*data_dir_override), w);
    assert(p@ == path_join(crate::config::data_dir_of(crate::config::opt_view(*data_dir_override), w), "backup.run.lock"@));
    p
}

/// What a non-blocking try to lock the file gave.
#[derive(Debug, Clone, Copy, PartialEq, Eq, Structural)]
pub enum TryLockOutcome {
    /// The lock is now held.
    Locked,
    /// Another process holds it.
    WouldBlock,
    /// Locking failed for another reason.
    Failed,
}

/// The answer of `try_acquire`: `Ok(true)` when the lock is held, `Ok(false)`
/// when another process holds it, `Err` on any other failure.
pub fn try_acquire_answer(o: TryLockOutcome) -> (r: Result<bool, ()>)
    ensures
        r == (match o {
            TryLockOutcome::Locked => Ok::<bool, ()>(true),
            TryLockOutcome::WouldBlock => Ok::<bool, ()>(false),
            TryLockOutcome::Failed => Err::<bool, ()>(()),
        }),
{
    match o {
        TryLockOutcome::Locked => Ok(true),
        TryLockOutcome::WouldBlock => Ok(false),
        TryLockOutcome::Failed => Err(()),
    }
}

/// What a waiting run does after a try.
#[derive(Debug, Clone, Copy, PartialEq, Eq, Structural)]
pub enum LockWait {
    /// The lock is held: go on.
    Acquired,
    /// The wait is over without the lock.
    GiveUp,
    /// Sleep this many milliseconds and try again.
    SleepThenRetry(u64),
}

/// After a try made `elapsed_ms` into a wait of `timeout_ms`: go on with
/// the lock; without it, give up once the deadline has come, otherwise try
/// again in five seconds.
pub open spec fn lock_wait_spec(acquired: bool, elapsed_ms: u64, timeout_ms: u64) -> LockWait {
    if acquired {
        LockWait::Acquired
    } else if elapsed_ms >= timeout_ms {
        LockWait::GiveUp
    } else {
        LockWait::SleepThenRetry(5000)
    }
}

/// One round of `acquire_wait`.
pub fn acquire_wait_next(acquired: bool, elapsed_ms: u64, timeout_ms: u64) -> (r: LockWait)
    ensures
        r == lock_wait_spec(acquired, elapsed_ms, timeout_ms),
{
    if acquired {
        LockWait::Acquired
    } else if elapsed_ms >= timeout_ms {
        LockWait::GiveUp
    } else {
        LockWait::SleepThenRetry(5000)
    }
}

/// A wait never gives up before its deadline and never sleeps past it
/// without trying again: a run that did not get the lock sleeps exactly
/// while time is left.
pub proof fn lemma_wait_until_deadline(elapsed_ms: u64, timeout_ms: u64)
    ensures
        lock_wait_spec(false, elapsed_ms, timeout_ms) == LockWait::GiveUp <==> elapsed_ms >= timeout_ms,
        lock_wait_spec(true, elapsed_ms, timeout_ms) == LockWait::Acquired,
{
}

} // verus!

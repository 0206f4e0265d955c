//! Retry state kept when a scheduled full backup was deferred for space:
//! a small TOML file plus a marker file, so that a deferred full is retried
//! by later automatic runs even when one of the two cannot be written.

use vstd::prelude::*;
use crate::paths::path_join;

verus! {

/// The persisted retry flag.
#[derive(Debug, Clone, Copy, PartialEq, Eq, Structural)]
pub struct PendingFullState {
    pub pending_full_backup: bool,
}

impl PendingFullState {
    /// No deferred full.
    pub fn new() -> (s: PendingFullState)
        ensures
            !s.pending_full_backup,
    {
        PendingFullState { pending_full_backup: false }
    }

    /// `pending-full.toml` in the data directory.
    pub fn path_in(data_dir: &str) -> (p: String)
        ensures
            p@ == path_join(data_dir@, "pending-full.toml"@),
    {
        crate::paths::join_path(data_dir, "pending-full.toml")
    }

    /// `pending-full.lock` in the data directory, guarding the state files.
    pub fn lock_path_in(data_dir: &str) -> (p: String)
        ensures
            p@ == path_join(data_dir@, "pending-full.lock"@),
    {
        crate::paths::join_path(data_dir, "pending-full.lock")
    }

    /// The state file.
    pub fn path(data_dir_override: &Option<String>) -> (p: String)
        ensures
            exists|d: Option<Seq<char>>| p@ == path_join(crate::config::data_dir_of(crate::config::opt_view(*data_dir_override), d), "pending-full.toml"@),
    {
        let d = crate::config::Config::data_dir(data_dir_override);
        let p = PendingFullState::path_in(d.as_str());
        let ghost w = choose|w: Option<Seq<char>>| d@ == crate::config::data_dir_of(crate::config::opt_view(*data_dir_override), w);
        assert(p@ == path_join(crate::config::data_dir_of(crate::config::opt_view(*data_dir_override), w), "pending-full.toml"@));
        p
    }

    /// The lock file.
    pub fn lock_path(data_dir_override: &Option<String>) -> (p: String)
        ensures
            exists|d: Option<Seq<char>>| p@ == path_join(crate::config::data_dir_of(crate::config::opt_view(*data_dir_override), d), "pending-full.lock"@),
    {
        let d = crate::config::Config::data_dir(data_dir_override);
        let p = PendingFullState::lock_path_in(d.as_str());
        let ghost w = choose|w: Option<Seq<char>>| d@ == crate::config::data_dir_of(crate::config::opt_view(*data_dir_override), w);
        assert(p@ == path_join(crate::config::data_dir_of(crate::config::opt_view(*data_dir_override), w), "pending-full.lock"@));
        p
    }
}

impl Default for PendingFullState {
    /// No deferred full.
    fn default() -> (s: PendingFullState)
        ensures
            !s.pending_full_backup,
    {
        PendingFullState::new()
    }
}

/// `pending-full.retry` in the data directory: the durable marker.
pub fn retry_marker_path_in(data_dir: &str) -> (p: String)
    ensures
        p@ == path_join(data_dir@, "pending-full.retry"@),
{
    crate::paths::join_path(data_dir, "pending-full.retry")
}

/// The durable marker written alongside the state file.
pub fn retry_marker_path(data_dir_override: &Option<String>) -> (p: String)
    ensures
        exists|d: Option<Seq<char>>| p@ == path_join(crate::config::data_dir_of(crate::config::opt_view(*data_dir_override), d), "pending-full.retry"@),
{
    let d = crate::config::Config::data_dir(data_dir_override);
    let p = retry_marker_path_in(d.as_str());
    let ghost w = choose|w: Option<Seq<char>>| d@ == crate::config::data_dir_of(crate::config::opt_view(*data_dir_override), w);
    assert(p@ == path_join(crate::config::data_dir_of(crate::config::opt_view(*data_dir_override), w), "pending-full.retry"@));
    p
}

/// An existing state file whose text is blank is corrupt.
pub fn state_text_is_blank(raw: &str) -> (b: bool)
    ensures
        b == (crate::scan::trim(raw@).len() == 0),
{
    let t = crate::scan::trimmed(raw);
    t.len() == 0
}

// ── Writing the state ───────────────────────────────────────────────────────

/// One write of the persisted state.
#[derive(Debug, Clone, Copy, PartialEq, Eq, Structural)]
pub enum PersistStep {
    /// Write the state file (through a temporary file and a rename).
    WriteState(bool),
    /// Create (`true`) or remove (`false`) the marker file.
    SetMarker(bool),
}

/// The writes that persist `pending`, in order: setting writes the state
/// file first and then the marker; clearing removes the marker first and
/// then writes the state file.
pub open spec fn persist_plan(pending: bool) -> Seq<PersistStep> {
    if pending {
        seq![PersistStep::WriteState(true), PersistStep::SetMarker(true)]
    } else {
        seq![PersistStep::SetMarker(false), PersistStep::WriteState(false)]
    }
}

/// The writes that persist `pending`, to be made under the lock.
pub fn persist_pending(pending: bool) -> (r: Vec<PersistStep>)
    ensures
        r@ == persist_plan(pending),
{
    let mut r: Vec<PersistStep> = Vec::new();
    if pending {
        r.push(PersistStep::WriteState(true));
        r.push(PersistStep::SetMarker(true));
    } else {
        r.push(PersistStep::SetMarker(false));
        r.push(PersistStep::WriteState(false));
    }
    assert(r@ =~= persist_plan(pending));
    r
}

/// The state file and marker after applying some writes.
pub open spec fn apply_steps(state: bool, marker: bool, steps: Seq<PersistStep>) -> (bool, bool)
    decreases steps.len(),
{
    if steps.len() == 0 {
        (state, marker)
    } else {
        let (s, m) = apply_steps(state, marker, steps.drop_last());
        match steps.last() {
            PersistStep::WriteState(v) => (v, m),
            PersistStep::SetMarker(v) => (s, v),
        }
    }
}

/// A retry is signalled when the state file or the marker says so.
pub open spec fn signals_retry(state: bool, marker: bool) -> bool {
    state || marker
}

/// Persisting a value leaves both files agreeing with it; and while a
/// retry is being set, once the first write is done a retry is signalled,
/// while one is being cleared the retry stays signalled until the
/// last write.
pub proof fn lemma_persist_plan(pending: bool, state: bool, marker: bool)
    ensures
        apply_steps(state, marker, persist_plan(pending)) == (pending, pending),
        pending ==> signals_retry(apply_steps(state, marker, persist_plan(pending).take(1)).0,
            apply_steps(state, marker, persist_plan(pending).take(1)).1),
        !pending && state ==> signals_retry(apply_steps(state, marker, persist_plan(pending).take(1)).0,
            apply_steps(state, marker, persist_plan(pending).take(1)).1),
{
    let p = persist_plan(pending);
    let first = p.drop_last();
    assert(first.drop_last() =~= Seq::<PersistStep>::empty());
    assert(apply_steps(state, marker, first.drop_last()) == (state, marker));
    assert(first.last() == p[0]);
    assert(p.take(1) =~= first);
    reveal_with_fuel(apply_steps, 3);
}

// ── Reading the state in automatic runs ─────────────────────────────────────

/// What reading the state file gave.
#[derive(Debug, Clone, Copy, PartialEq, Eq, Structural)]
pub enum PendingRead {
    /// There is no state file.
    Missing,
    /// The file holds this flag.
    Flag(bool),
    /// The file exists but is blank or is not valid TOML.
    Unreadable,
}

/// What reading the state file gave: no file; a blank file or one that did
/// not parse (`parsed` is the flag that parsing `raw` gave, if it did) is
/// unreadable; otherwise its flag.
pub open spec fn state_read_spec(raw: Option<Seq<char>>, parsed: Option<bool>) -> PendingRead {
    match raw {
        None => PendingRead::Missing,
        Some(t) => if crate::scan::trim(t).len() == 0 {
            PendingRead::Unreadable
        } else {
            match parsed {
                Some(b) => PendingRead::Flag(b),
                None => PendingRead::Unreadable,
            }
        },
    }
}

/// Classifies the state file from its text (if it exists) and the flag its
/// parse gave (if it parsed).
pub fn state_read(raw: &Option<String>, parsed: Option<bool>) -> (r: PendingRead)
    ensures
        r == state_read_spec(crate::config::opt_view(*raw), parsed),
{
    match raw {
        None => PendingRead::Missing,
        Some(t) => {
            if state_text_is_blank(t.as_str()) {
                PendingRead::Unreadable
            } else {
                match parsed {
                    Some(b) => PendingRead::Flag(b),
                    None => PendingRead::Unreadable,
                }
            }
        }
    }
}

/// The persisted flag: false without a state file, `None` when the file
/// cannot be read.
pub fn pending_full_backup(read: PendingRead) -> (r: Option<bool>)
    ensures
        r == (match read {
            PendingRead::Missing => Some(false),
            PendingRead::Flag(b) => Some(b),
            PendingRead::Unreadable => None::<bool>,
        }),
{
    match read {
        PendingRead::Missing => Some(false),
        PendingRead::Flag(b) => Some(b),
        PendingRead::Unreadable => None,
    }
}

/// What an automatic run does about a deferred full.
#[derive(Debug, Clone, Copy, PartialEq, Eq, Structural)]
pub enum AutoPendingAction {
    /// The answer.
    Answer(bool),
    /// The file says no but the marker exists: write the flag back as set
    /// (under the lock), then answer yes.
    RestoreThenYes,
    /// Move the unreadable file aside, then answer yes (the marker exists).
    QuarantineThenYes,
    /// Move the unreadable file aside, then fail: nothing says whether a
    /// full is pending.
    QuarantineThenFail,
}

/// Whether automatic mode should retry a deferred full: the file decides
/// when it says yes; a marker overrides a file that says no or cannot be
/// read; without a file the marker alone decides.
pub open spec fn auto_pending(read: PendingRead, marker_exists: bool) -> AutoPendingAction {
    match read {
        PendingRead::Missing => AutoPendingAction::Answer(marker_exists),
        PendingRead::Flag(true) => AutoPendingAction::Answer(true),
        PendingRead::Flag(false) => if marker_exists {
            AutoPendingAction::RestoreThenYes
        } else {
            AutoPendingAction::Answer(false)
        },
        PendingRead::Unreadable => if marker_exists {
            AutoPendingAction::QuarantineThenYes
        } else {
            AutoPendingAction::QuarantineThenFail
        },
    }
}

/// Whether automatic mode should retry a deferred full (file or marker).
pub fn pending_full_for_auto(read: PendingRead, marker_exists: bool) -> (a: AutoPendingAction)
    ensures
        a == auto_pending(read, marker_exists),
{
    match read {
        PendingRead::Missing => AutoPendingAction::Answer(marker_exists),
        PendingRead::Flag(true) => AutoPendingAction::Answer(true),
        PendingRead::Flag(false) => {
            if marker_exists {
                AutoPendingAction::RestoreThenYes
            } else {
                AutoPendingAction::Answer(false)
            }
        }
        PendingRead::Unreadable => {
            if marker_exists {
                AutoPendingAction::QuarantineThenYes
            } else {
                AutoPendingAction::QuarantineThenFail
            }
        }
    }
}

/// A deferred full that either file signals is never lost by an automatic
/// run: whenever the marker exists the answer is yes (or the file is
/// restored to yes), and a readable file that says yes is believed.
pub proof fn lemma_marker_is_never_ignored(read: PendingRead, marker_exists: bool)
    ensures
        marker_exists ==> (auto_pending(read, marker_exists) == AutoPendingAction::Answer(true)
            || auto_pending(read, marker_exists) == AutoPendingAction::RestoreThenYes
            || auto_pending(read, marker_exists) == AutoPendingAction::QuarantineThenYes),
        read == PendingRead::Flag(true) ==> auto_pending(read, marker_exists) == AutoPendingAction::Answer(true),
        !marker_exists && read != PendingRead::Unreadable ==>
            auto_pending(read, marker_exists) == AutoPendingAction::Answer(read == PendingRead::Flag(true)),
{
}

/// What is persisted is what an automatic run reads back: once the writes
/// for `pending` are made, whatever the files held before, the run answers
/// `pending` without repairing anything.
pub proof fn lemma_persist_then_read(pending: bool, state: bool, marker: bool)
    ensures
        auto_pending(PendingRead::Flag(apply_steps(state, marker, persist_plan(pending)).0),
            apply_steps(state, marker, persist_plan(pending)).1) == AutoPendingAction::Answer(pending),
{
    lemma_persist_plan(pending, state, marker);
}

// ── Retrying a write ────────────────────────────────────────────────────────

/// A write of the state, tried a few times with a pause in between.
#[derive(Debug, Clone, Copy, PartialEq, Eq, Structural)]
pub struct RetryRun {
    /// The value being written.
    pub pending: bool,
    /// How many attempts in all.
    pub attempts: u32,
    /// Pause between attempts, in milliseconds.
    pub delay_ms: u64,
    /// Attempts made so far.
    pub tried: u32,
}

/// What to do after an attempt.
#[derive(Debug, Clone, Copy, PartialEq, Eq, Structural)]
pub enum RetryStep {
    /// The value is written.
    Done,
    /// Wait this many milliseconds, then try again.
    SleepThenRetry(u64),
    /// All attempts failed while setting a retry: create the marker alone.
    FallBackToMarker,
    /// All attempts failed: report the last error.
    GiveUp,
}

/// The plan for persisting `pending`: three attempts, 50 ms apart, with
/// the marker as fallback when setting.
pub open spec fn set_pending_plan(pending: bool) -> RetryRun {
    RetryRun { pending, attempts: 3, delay_ms: 50, tried: 0 }
}

/// Persisting `pending` with brief retries and the marker as fallback:
/// three attempts, 50 ms apart.
pub fn set_pending_full_backup_with_retry(pending: bool) -> (r: RetryRun)
    ensures
        r == set_pending_plan(pending),
{
    RetryRun { pending, attempts: 3, delay_ms: 50, tried: 0 }
}

/// Setting the flag: exactly the retrying variant, same plan.
pub fn set_pending_full_backup(pending: bool) -> (r: RetryRun)
    ensures
        r == set_pending_plan(pending),
{
    set_pending_full_backup_with_retry(pending)
}

/// Clearing all deferred-full signals after a successful full backup: ten
/// attempts, 100 ms apart.
pub fn clear_pending_after_success() -> (r: RetryRun)
    ensures
        r == (RetryRun { pending: false, attempts: 10, delay_ms: 100, tried: 0 }),
{
    RetryRun { pending: false, attempts: 10, delay_ms: 100, tried: 0 }
}

/// After an attempt: done on success; otherwise wait and retry while
/// attempts remain, then fall back to the marker when setting, or give up.
pub open spec fn retry_next(r: RetryRun, succeeded: bool) -> (RetryRun, RetryStep) {
    let tried = (r.tried + 1) as u32;
    if succeeded {
        (RetryRun { tried, ..r }, RetryStep::Done)
    } else if tried < r.attempts {
        (RetryRun { tried, ..r }, RetryStep::SleepThenRetry(r.delay_ms))
    } else if r.pending {
        (RetryRun { tried, ..r }, RetryStep::FallBackToMarker)
    } else {
        (RetryRun { tried, ..r }, RetryStep::GiveUp)
    }
}

impl RetryRun {
    /// Record the outcome of one attempt; returns what to do next.
    pub fn after_attempt(&mut self, succeeded: bool) -> (s: RetryStep)
        requires
            old(self).tried < old(self).attempts,
        ensures
            (*final(self), s) == retry_next(*old(self), succeeded),
    {
        self.tried = self.tried + 1;
        if succeeded {
            RetryStep::Done
        } else if self.tried < self.attempts {
            RetryStep::SleepThenRetry(self.delay_ms)
        } else if self.pending {
            RetryStep::FallBackToMarker
        } else {
            RetryStep::GiveUp
        }
    }
}

/// A retried write makes at most `attempts` attempts: each failure before
/// the last asks for another, and the last one never does.
pub proof fn lemma_retry_bounded(r: RetryRun, succeeded: bool)
    requires
        r.tried < r.attempts,
    ensures
        retry_next(r, succeeded).0.tried == r.tried + 1,
        retry_next(r, succeeded).1 is SleepThenRetry ==> retry_next(r, succeeded).0.tried < r.attempts,
        retry_next(r, succeeded).0.tried == r.attempts ==> !(retry_next(r, succeeded).1 is SleepThenRetry),
{
}

} // verus!

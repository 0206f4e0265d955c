//! What holds of every backup run and of the snapshot policy as a whole,
//! stated over the spec functions that the operations' contracts use.

use vstd::prelude::*;
use crate::backup::{
    accepts, after_full_removes, dest_accepts, dest_next, DestEventView, DestPhase, DestStepView, after_full_victims_upto, auto_decision, backup_kind_named,
    blocked_text, deferred_summary_text, lock_busy_text, lock_wait_ms, full_prep_spec, is_full_dir, is_inc_dir, kind_prefix,
    newer_fulls, retention_victims_spec, rsync_accepted, rsync_failed_text, run_next,
    skip_period_text, skip_requested_text, summary_text, BackupKind, DirEntryInfo, EntryAge,
    EventView, FullPrep, PhaseView, RunSettings, StepView, is_snapshot_dir, is_snapshot_name, latest_snapshot_spec,
};
use crate::scan::{ascii_lower, ascii_lowercase};
use crate::drives::{collect_all, collect_device, drive_view_of, flag_removable, is_partition, is_stable_sort,
    is_system_partition, is_usable_fs, DriveView, LsblkDevice};
use crate::order::lex_le;
use crate::drives::{measured, sweep_accepts, sweep_next, trash_part_spec, SweepEvent, SweepPhase, SweepStepView};
use crate::split::starts_with;
use crate::paths::path_join;
use crate::config::saved_pending;

verus! {

// ── A run step by step ──────────────────────────────────────────────────────

/// How far a phase is from the end of the run.
pub open spec fn phase_rank(p: PhaseView) -> nat {
    match p {
        PhaseView::NotStarted => 16,
        PhaseView::Locking => 15,
        PhaseView::Resolving => 14,
        PhaseView::Choosing => 13,
        PhaseView::Preparing => 12,
        PhaseView::RecordingDeferral { .. } => 11,
        PhaseView::Copying { .. } => 10,
        PhaseView::RemovingStaging { .. } => 9,
        PhaseView::Committing { .. } => 8,
        PhaseView::UpdatingLatest { .. } => 7,
        PhaseView::ApplyingRetention { .. } => 6,
        PhaseView::PruningAfterFull { .. } => 5,
        PhaseView::RotatingLog { .. } => 4,
        PhaseView::Notifying { .. } => 3,
        PhaseView::ClearingPending { .. } => 2,
        PhaseView::Finished => 0,
    }
}

/// Every run ends: each event a run accepts moves it strictly closer to
/// the end, and a finished run accepts nothing more.
pub proof fn lemma_run_always_ends(requested: BackupKind, settings: RunSettings, phase: PhaseView, ev: EventView)
    requires
        accepts(phase, ev),
    ensures
        phase_rank(run_next(requested, settings, phase, ev).0) < phase_rank(phase),
        run_next(requested, settings, phase, ev).0 is Finished <==> run_next(requested, settings, phase, ev).1 is Finish,
        !accepts(PhaseView::Finished, ev),
{
}

/// The run lock comes first: a run starts by asking for it (a scheduled,
/// automatic run waits up to an hour, any other run not at all), the
/// destination is looked at only once the lock is held, and a run that
/// finds the lock taken ends with an error without doing anything else.
pub proof fn lemma_lock_comes_first(requested: BackupKind, settings: RunSettings, phase: PhaseView, ev: EventView)
    ensures
        run_next(requested, settings, PhaseView::NotStarted, EventView::Begin)
            == (PhaseView::Locking, StepView::AcquireLock { wait_ms: lock_wait_ms(requested) }),
        run_next(requested, settings, phase, ev).1 is AcquireLock ==> ev is Begin,
        run_next(requested, settings, phase, ev).1 is ResolveDestination ==> ev == EventView::LockAcquired(true),
        run_next(requested, settings, PhaseView::Locking, EventView::LockAcquired(false))
            == (PhaseView::Finished, StepView::Finish(Err(lock_busy_text()))),
{
}

/// Snapshots are atomic: a staging directory is committed (renamed into
/// place) only right after rsync finished with exit code 0 or 24, and the
/// commit renames exactly the staging directory that rsync copied into, to
/// exactly the snapshot name of that copy.
pub proof fn lemma_commit_only_after_accepted_copy(requested: BackupKind, settings: RunSettings, phase: PhaseView, ev: EventView)
    requires
        accepts(phase, ev),
    ensures
        run_next(requested, settings, phase, ev).1 matches StepView::Commit { kind, staging_dir, final_dir, .. } ==> {
            &&& phase matches PhaseView::Copying { kind: k, .. } && k == kind
            &&& ev matches EventView::CopyFinished { exit_code, staging_dir: s, final_dir: f, .. }
                && rsync_accepted(exit_code) && s == staging_dir && f == final_dir
        },
{
}

/// `latest` always names the newest snapshot: right after a snapshot is
/// committed, and before anything else, `latest` is pointed at exactly the
/// directory the copy was committed to; and it is pointed nowhere else.
pub proof fn lemma_latest_follows_the_commit(requested: BackupKind, settings: RunSettings, phase: PhaseView, ev: EventView,
    kind: BackupKind, deferred: bool, exit_code: i32, staging_dir: Seq<char>, final_dir: Seq<char>, stdout: Seq<char>)
    requires
        rsync_accepted(exit_code),
    ensures
        ({
            let (p1, _) = run_next(requested, settings, PhaseView::Copying { kind, deferred },
                EventView::CopyFinished { exit_code, staging_dir, final_dir, stdout });
            run_next(requested, settings, p1, EventView::Committed).1 == StepView::UpdateLatest { final_dir }
        }),
        run_next(requested, settings, phase, ev).1 matches StepView::UpdateLatest { final_dir: f } ==> {
            &&& phase matches PhaseView::Committing { final_dir: g, .. } && g == f
            &&& ev is Committed
        },
{
}

/// What follows a commit: every run points `latest` at the new snapshot and
/// then applies retention with the configured age; an incremental then
/// only notifies and ends successfully, never pruning full snapshots nor
/// rotating the log; a full snapshot always prunes (keeping the configured
/// number of full snapshots), then rotates the log into the new snapshot,
/// notifies and clears the pending-full records before it ends.
pub proof fn lemma_after_commit(requested: BackupKind, settings: RunSettings,
    kind: BackupKind, final_dir: Seq<char>, summary: Seq<char>)
    ensures
        run_next(requested, settings, PhaseView::Committing { kind, final_dir, summary }, EventView::Committed)
            == (PhaseView::UpdatingLatest { kind, final_dir, summary }, StepView::UpdateLatest { final_dir }),
        run_next(requested, settings, PhaseView::UpdatingLatest { kind, final_dir, summary }, EventView::LatestUpdated)
            == (PhaseView::ApplyingRetention { kind, final_dir, summary },
                StepView::ApplyRetention { retention_days: settings.retention_days }),
        kind == BackupKind::Incremental ==>
            run_next(requested, settings, PhaseView::ApplyingRetention { kind, final_dir, summary }, EventView::RetentionApplied)
                == (PhaseView::Notifying { kind, summary }, StepView::Notify { kind }),
        kind == BackupKind::Incremental ==>
            run_next(requested, settings, PhaseView::Notifying { kind, summary }, EventView::Notified)
                == (PhaseView::Finished, StepView::Finish(Ok(summary))),
        run_next(requested, settings, PhaseView::ApplyingRetention { kind: BackupKind::Full, final_dir, summary }, EventView::RetentionApplied)
            == (PhaseView::PruningAfterFull { final_dir, summary },
                StepView::PruneAfterFull { keep_full: settings.keep_full_snapshots }),
        run_next(requested, settings, PhaseView::PruningAfterFull { final_dir, summary }, EventView::Pruned)
            == (PhaseView::RotatingLog { summary }, StepView::RotateLog { final_dir }),
        run_next(requested, settings, PhaseView::RotatingLog { summary }, EventView::LogRotated)
            == (PhaseView::Notifying { kind: BackupKind::Full, summary }, StepView::Notify { kind: BackupKind::Full }),
        run_next(requested, settings, PhaseView::Notifying { kind: BackupKind::Full, summary }, EventView::Notified)
            == (PhaseView::ClearingPending { summary }, StepView::ClearPending),
        run_next(requested, settings, PhaseView::ClearingPending { summary }, EventView::PendingCleared)
            == (PhaseView::Finished, StepView::Finish(Ok(summary))),
{
}

/// Only a full snapshot prunes and rotates the log, and only in this order:
/// retention is applied only right after `latest` was updated; pruning
/// comes only right after retention, in a run whose snapshot is full; the
/// log is rotated only right after that pruning.
pub proof fn lemma_only_full_prunes_and_rotates(requested: BackupKind, settings: RunSettings, phase: PhaseView, ev: EventView)
    ensures
        run_next(requested, settings, phase, ev).1 is ApplyRetention ==> phase is UpdatingLatest && ev is LatestUpdated,
        run_next(requested, settings, phase, ev).1 is PruneAfterFull ==> {
            &&& phase matches PhaseView::ApplyingRetention { kind: k, .. } && k == BackupKind::Full
            &&& ev is RetentionApplied
        },
        run_next(requested, settings, phase, ev).1 is RotateLog ==> phase is PruningAfterFull && ev is Pruned,
        run_next(requested, settings, phase, ev).0 is PruningAfterFull ==> {
            &&& phase matches PhaseView::ApplyingRetention { kind: k, .. } && k == BackupKind::Full
            &&& ev is RetentionApplied
        },
        run_next(requested, settings, phase, ev).0 is RotatingLog ==> phase is PruningAfterFull,
{
}

/// A partial snapshot never appears complete: any rsync exit other than 0
/// and 24 commits nothing, has the staging directory that rsync copied into
/// removed, and only then ends the run with the rsync error.
pub proof fn lemma_rejected_copy_commits_nothing(requested: BackupKind, settings: RunSettings, kind: BackupKind,
    deferred: bool, exit_code: i32, staging_dir: Seq<char>, final_dir: Seq<char>, stdout: Seq<char>)
    requires
        !rsync_accepted(exit_code),
    ensures
        run_next(requested, settings, PhaseView::Copying { kind, deferred },
            EventView::CopyFinished { exit_code, staging_dir, final_dir, stdout })
            == (PhaseView::RemovingStaging { exit_code }, StepView::RemoveStaging(staging_dir)),
        run_next(requested, settings, PhaseView::RemovingStaging { exit_code }, EventView::StagingRemoved)
            == (PhaseView::Finished, StepView::Finish(Err(rsync_failed_text(exit_code)))),
{
}

/// A failure of the outside work ends the run with that very error.
pub proof fn lemma_failure_ends_run(requested: BackupKind, settings: RunSettings, phase: PhaseView, e: Seq<char>)
    ensures
        run_next(requested, settings, phase, EventView::Failed(e)) == (PhaseView::Finished, StepView::Finish(Err(e))),
{
}

/// A run asked to skip, or one that the incremental period skips, copies
/// nothing: it ends at once, successfully, with the skip notice.
pub proof fn lemma_skip_never_copies(settings: RunSettings, requested: BackupKind, phase: PhaseView)
    ensures
        run_next(BackupKind::Skip, settings, PhaseView::Resolving, EventView::DestinationReady)
            == (PhaseView::Finished, StepView::Finish(Ok(skip_requested_text()))),
        run_next(requested, settings, phase, EventView::KindChosen(BackupKind::Skip))
            == (PhaseView::Finished, StepView::Finish(Ok(skip_period_text(settings.period)))),
{
}

/// A full snapshot is copied only once the space check has passed; a
/// full snapshot is always prepared (pruning and the space check) first.
pub proof fn lemma_full_copy_needs_room(requested: BackupKind, settings: RunSettings, phase: PhaseView, ev: EventView)
    ensures
        run_next(requested, settings, phase, ev).1 matches StepView::Copy { kind, .. } && kind == BackupKind::Full
            ==> ev == EventView::SpaceChecked(FullPrep::Proceed),
        run_next(BackupKind::Full, settings, PhaseView::Resolving, EventView::DestinationReady)
            == (PhaseView::Preparing, StepView::PrepareFull),
        run_next(requested, settings, phase, EventView::KindChosen(BackupKind::Full))
            == (PhaseView::Preparing, StepView::PrepareFull),
{
}

/// A full snapshot without room is recorded as still owed before anything
/// else happens; then it becomes an incremental when there is a snapshot
/// to link against, whose summary opens with the deferral notice, and
/// without one the run ends without copying.  An incremental stands in for
/// a full snapshot only after the deferral was recorded.
pub proof fn lemma_deferred_full_is_recorded(requested: BackupKind, settings: RunSettings, phase: PhaseView, ev: EventView,
    available: u64, needed: u64, exit_code: i32, staging_dir: Seq<char>, final_dir: Seq<char>, stdout: Seq<char>)
    requires
        rsync_accepted(exit_code),
    ensures
        run_next(requested, settings, PhaseView::Preparing,
            EventView::SpaceChecked(FullPrep::DeferredToIncremental { available, needed }))
            == (PhaseView::RecordingDeferral { blocked: None }, StepView::RecordDeferral),
        run_next(requested, settings, PhaseView::Preparing,
            EventView::SpaceChecked(FullPrep::Blocked { available, needed }))
            == (PhaseView::RecordingDeferral { blocked: Some((available, needed)) }, StepView::RecordDeferral),
        run_next(requested, settings, PhaseView::RecordingDeferral { blocked: None }, EventView::DeferralRecorded)
            == (PhaseView::Copying { kind: BackupKind::Incremental, deferred: true },
                StepView::Copy { kind: BackupKind::Incremental, deferred: true }),
        run_next(requested, settings, PhaseView::RecordingDeferral { blocked: Some((available, needed)) }, EventView::DeferralRecorded)
            == (PhaseView::Finished, StepView::Finish(Ok(blocked_text(available, needed)))),
        run_next(requested, settings, PhaseView::Copying { kind: BackupKind::Incremental, deferred: true },
            EventView::CopyFinished { exit_code, staging_dir, final_dir, stdout }).0
            == (PhaseView::Committing { kind: BackupKind::Incremental, final_dir,
                summary: deferred_summary_text(summary_text("inc"@, final_dir, stdout)) }),
        run_next(requested, settings, phase, ev).1 matches StepView::Copy { deferred, .. } && deferred
            ==> ev is DeferralRecorded,
{
    assert(kind_prefix(BackupKind::Incremental) == "inc"@);
}

/// A deferred full snapshot is retried until one succeeds: the automatic
/// choice takes a full snapshot whenever one is still owed, and the records
/// of the debt are cleared only after a full snapshot was committed (and
/// pruned, rotated and announced); an incremental clears nothing.
pub proof fn lemma_full_success_clears_pending(requested: BackupKind, settings: RunSettings, phase: PhaseView, ev: EventView,
    is_full_day: bool, full_exists: bool, latest_day: Option<i32>, today: i32)
    ensures
        auto_decision(is_full_day, full_exists, true, latest_day, today, settings.period) == BackupKind::Full,
        run_next(requested, settings, phase, ev).1 is ClearPending ==> {
            &&& phase matches PhaseView::Notifying { kind, .. } && kind == BackupKind::Full
            &&& ev is Notified
        },
        run_next(requested, settings, phase, ev).0 matches PhaseView::Notifying { kind, .. } && kind == BackupKind::Full
            ==> phase is RotatingLog && ev is LogRotated,
{
}

/// rsync's per-file detail never lands in the active log: in any data
/// directory, the scratch file it is written to differs from the log.
pub proof fn lemma_detail_log_is_not_the_active_log(data_dir: Seq<char>)
    ensures
        path_join(data_dir, "rsync-detail.log.tmp"@) != path_join(data_dir, "backup.log"@),
{
    reveal_strlit("rsync-detail.log.tmp");
    reveal_strlit("backup.log");
    assert(path_join(data_dir, "rsync-detail.log.tmp"@).len() != path_join(data_dir, "backup.log"@).len());
}

/// Setting the pending-full flag in the configuration persists it: saved
/// as the explicit write of the flag, the configuration goes to disk with
/// the flag cleared or set as asked, whatever the file held before; an
/// ordinary save keeps a flag that the file has set.
pub proof fn lemma_set_pending_is_persisted(pending: bool, on_disk: Option<bool>)
    ensures
        saved_pending(pending, on_disk, true) == pending,
        saved_pending(pending, on_disk, false) == (pending || on_disk == Some(true)),
{
}

/// The space check lets a full snapshot go ahead exactly when the free
/// space covers the estimate; otherwise it falls back to an incremental
/// exactly when a snapshot exists to link against.
pub proof fn lemma_space_check(available: u64, needed: u64, has_latest: bool)
    ensures
        full_prep_spec(available, needed, has_latest) == FullPrep::Proceed <==> available >= needed,
        full_prep_spec(available, needed, has_latest) is DeferredToIncremental <==> available < needed && has_latest,
        full_prep_spec(available, needed, has_latest) is Blocked <==> available < needed && !has_latest,
{
}

// ── Reaching the destination ────────────────────────────────────────────────

/// How far a phase of reaching the destination is from its end.
pub open spec fn dest_rank(p: DestPhase) -> nat {
    match p {
        DestPhase::NotStarted => 8,
        DestPhase::CheckingDest => 7,
        DestPhase::FindingMount => 6,
        DestPhase::Mounting => 5,
        DestPhase::CheckingCandidate => 4,
        DestPhase::CreatingOnMounted => 3,
        DestPhase::CreatingAfterMount => 2,
        DestPhase::RecheckingDest => 1,
        DestPhase::Finished => 0,
    }
}

/// Reaching the destination always ends; when it succeeds, the result is
/// the configured destination itself, answered only right after that very
/// path was reported to exist; the only directory it ever creates is that
/// destination; and without a UUID no drive is looked up or mounted.
pub proof fn lemma_dest_resolution(dest: Seq<char>, uuid: Option<Seq<char>>, phase: DestPhase, ev: DestEventView)
    requires
        dest_accepts(phase, ev),
    ensures
        dest_rank(dest_next(dest, uuid, phase, ev).0) < dest_rank(phase),
        dest_next(dest, uuid, phase, ev).0 == DestPhase::Finished <==> dest_next(dest, uuid, phase, ev).1 is Finish,
        dest_next(dest, uuid, phase, ev).1 matches DestStepView::Finish(Ok(p)) ==> {
            &&& p == dest
            &&& phase == DestPhase::CheckingDest || phase == DestPhase::RecheckingDest
            &&& ev == DestEventView::Exists(true)
        },
        dest_next(dest, uuid, phase, ev).0 == DestPhase::CheckingDest || dest_next(dest, uuid, phase, ev).0 == DestPhase::RecheckingDest
            ==> dest_next(dest, uuid, phase, ev).1 == DestStepView::CheckExists(dest),
        dest_next(dest, uuid, phase, ev).1 is CreateDir ==> dest_next(dest, uuid, phase, ev).1 == DestStepView::CreateDir(dest),
        uuid is None ==> !(dest_next(dest, uuid, phase, ev).1 is Mount) && !(dest_next(dest, uuid, phase, ev).1 is FindMount),
{
}

// ── Emptying the trash ──────────────────────────────────────────────────────

/// How far into emptying the trash a phase is.
pub open spec fn sweep_position(p: SweepPhase) -> int {
    match p {
        SweepPhase::Root(i) => 7 * i,
        SweepPhase::Part(i, j) => 7 * i + 1 + 3 * j,
        SweepPhase::Measure(i, j) => 7 * i + 2 + 3 * j,
        SweepPhase::Clear(i, j) => 7 * i + 3 + 3 * j,
        SweepPhase::Done => 14,
    }
}

/// Emptying the trash always ends; only the `files` and `expunged` parts of
/// the user's trash directories are ever cleared, each right after it was
/// measured; and the freed total grows by exactly what was measured.
pub proof fn lemma_trash_sweep(m: Seq<char>, uid: u32, phase: SweepPhase, freed: u64, ev: SweepEvent)
    requires
        sweep_accepts(phase, ev),
        ev matches SweepEvent::Measured(u) ==> freed + measured(u) <= u64::MAX,
    ensures
        sweep_position(sweep_next(m, uid, phase, freed, ev).0) > sweep_position(phase),
        sweep_next(m, uid, phase, freed, ev).2 matches SweepStepView::Clear(p) ==> {
            &&& phase matches SweepPhase::Measure(i, j)
            &&& p == trash_part_spec(m, uid, i as int, j as int)
        },
        sweep_next(m, uid, phase, freed, ev).1 == freed + (match (phase, ev) {
            (SweepPhase::Measure(_, _), SweepEvent::Measured(u)) => measured(u),
            _ => 0,
        }),
        sweep_next(m, uid, phase, freed, ev).2 matches SweepStepView::Finish(n) ==> n == freed,
{
}

// ── The automatic choice ────────────────────────────────────────────────────

/// The automatic choice is a full snapshot on the configured day, whenever
/// no full snapshot exists, and while a deferred full is still owed; it skips only when the latest snapshot
/// is younger than the incremental period (at least one day), so with a
/// period of one day at most one incremental is taken per calendar day.
pub proof fn lemma_auto_choice(is_full_day: bool, full_exists: bool, pending_full: bool, latest_day: Option<i32>, today: i32, period: u32)
    ensures
        is_full_day || !full_exists || pending_full
            ==> auto_decision(is_full_day, full_exists, pending_full, latest_day, today, period) == BackupKind::Full,
        auto_decision(is_full_day, full_exists, pending_full, latest_day, today, period) == BackupKind::Skip ==> {
            &&& latest_day matches Some(d)
            &&& (today as int) - (d as int) < (if period < 1 { 1 } else { period as int })
        },
        auto_decision(is_full_day, full_exists, pending_full, latest_day, today, period) != BackupKind::Auto,
        !is_full_day && full_exists && !pending_full && period <= 1 && latest_day == Some(today)
            ==> auto_decision(is_full_day, full_exists, pending_full, latest_day, today, period) == BackupKind::Skip,
{
}

/// Only `full`, `incremental`/`inc` and `auto` are accepted, in any ASCII
/// case; the internal `Skip` kind can never be asked for.
pub proof fn lemma_parse_names(s: Seq<char>)
    ensures
        backup_kind_named(s) != Some(BackupKind::Skip),
        backup_kind_named(ascii_lowercase(s)) == backup_kind_named(s),
{
    assert(ascii_lowercase(ascii_lowercase(s)) =~= ascii_lowercase(s)) by {
        assert forall|i: int| 0 <= i < s.len() implies ascii_lower(ascii_lower(#[trigger] s[i])) == ascii_lower(s[i]) by {
            let c = s[i];
            if 'A' <= c && c <= 'Z' {
                assert(((c as u32) + 32) as char >= 'a');
            }
        }
    }
}

// ── What is removed ─────────────────────────────────────────────────────────

/// Retention by age never removes a full snapshot: every name it picks
/// starts with `inc-` and belongs to an entry older than the cutoff.
pub proof fn lemma_retention_spares_full(entries: Seq<EntryAge>, cutoff_ns: i128)
    ensures
        forall|k: int| 0 <= k < retention_victims_spec(entries, cutoff_ns).len()
            ==> starts_with(#[trigger] retention_victims_spec(entries, cutoff_ns)[k], "inc-"@),
        forall|k: int| 0 <= k < retention_victims_spec(entries, cutoff_ns).len()
            ==> !starts_with(#[trigger] retention_victims_spec(entries, cutoff_ns)[k], "full-"@),
    decreases entries.len(),
{
    let all = retention_victims_spec(entries, cutoff_ns);
    if entries.len() > 0 {
        lemma_retention_spares_full(entries.drop_last(), cutoff_ns);
        let rest = retention_victims_spec(entries.drop_last(), cutoff_ns);
        assert forall|k: int| 0 <= k < all.len() implies starts_with(#[trigger] all[k], "inc-"@) by {
            if k < rest.len() {
                assert(all[k] == rest[k]);
            } else {
                assert(all[k] == entries.last().name@);
            }
        }
    }
    assert forall|k: int| 0 <= k < all.len() implies !starts_with(#[trigger] all[k], "full-"@) by {
        let n = all[k];
        reveal_strlit("inc-");
        reveal_strlit("full-");
        assert(starts_with(n, "inc-"@));
        assert(n.take(4)[0] == n[0]);
        if starts_with(n, "full-"@) {
            assert(n.take(5)[0] == n[0]);
        }
    }
}

/// After a full snapshot, every incremental goes; a limit of 0 keeps every
/// full snapshot; and the newest full snapshot (none newer) is always kept.
pub proof fn lemma_after_full_keeps_newest(entries: Seq<DirEntryInfo>, e: DirEntryInfo, keep_full: u32)
    ensures
        is_inc_dir(e) ==> after_full_removes(entries, e, keep_full),
        keep_full == 0 && !is_inc_dir(e) ==> !after_full_removes(entries, e, keep_full),
        is_full_dir(e) && newer_fulls(entries, e.name@) == 0 && !is_inc_dir(e)
            ==> !after_full_removes(entries, e, keep_full),
        is_full_dir(e) && newer_fulls(entries, e.name@) < keep_full && !is_inc_dir(e)
            ==> !after_full_removes(entries, e, keep_full),
{
}

proof fn lemma_newer_fulls_antitone(entries: Seq<DirEntryInfo>, a: Seq<char>, b: Seq<char>)
    requires
        crate::order::lex_le(a, b),
    ensures
        newer_fulls(entries, b) <= newer_fulls(entries, a),
    decreases entries.len(),
{
    if entries.len() > 0 {
        lemma_newer_fulls_antitone(entries.drop_last(), a, b);
        let n = entries.last().name@;
        if is_full_dir(entries.last()) && crate::order::lex_lt(b, n) {
            crate::order::lemma_lex_transitive(a, b, n);
            if a == n {
                crate::order::lemma_lex_antisymmetric(b, n);
            }
        }
    }
}

/// The full snapshots that stay are always the newest ones: whenever a
/// full snapshot goes, so does every older one.
pub proof fn lemma_after_full_keeps_the_newest_fulls(entries: Seq<DirEntryInfo>, older: DirEntryInfo,
    newer: DirEntryInfo, keep_full: u32)
    requires
        is_full_dir(older),
        is_full_dir(newer),
        crate::order::lex_le(older.name@, newer.name@),
        after_full_removes(entries, newer, keep_full),
    ensures
        after_full_removes(entries, older, keep_full),
{
    lemma_newer_fulls_antitone(entries, older.name@, newer.name@);
    if is_inc_dir(newer) {
        let n = newer.name@;
        reveal_strlit("full-");
        reveal_strlit("inc-");
        assert(n.take(5)[0] == n[0]);
        assert(n.take(4)[0] == n[0]);
    }
}

// ── How many full snapshots stay ────────────────────────────────────────────

/// How many of `ns` sort after `x`.
pub open spec fn count_after(ns: Seq<Seq<char>>, x: Seq<char>) -> nat
    decreases ns.len(),
{
    if ns.len() == 0 {
        0
    } else {
        count_after(ns.drop_last(), x) + (if crate::order::lex_lt(x, ns.last()) { 1nat } else { 0nat })
    }
}

/// How many of `part` have fewer than `keep` names of `all` sorting after them.
pub open spec fn count_within(all: Seq<Seq<char>>, part: Seq<Seq<char>>, keep: nat) -> nat
    decreases part.len(),
{
    if part.len() == 0 {
        0
    } else {
        count_within(all, part.drop_last(), keep) + (if count_after(all, part.last()) < keep { 1nat } else { 0nat })
    }
}

/// No name occurs twice.
pub open spec fn distinct_names(ns: Seq<Seq<char>>) -> bool {
    forall|i: int, j: int| 0 <= i < j < ns.len() ==> ns[i] != ns[j]
}

/// The names of the full snapshot directories among `entries`, in order.
pub open spec fn full_names(entries: Seq<DirEntryInfo>) -> Seq<Seq<char>>
    decreases entries.len(),
{
    if entries.len() == 0 {
        seq![]
    } else if is_full_dir(entries.last()) {
        full_names(entries.drop_last()).push(entries.last().name@)
    } else {
        full_names(entries.drop_last())
    }
}

/// How many full snapshot directories among the first `n` entries stay
/// after a full snapshot.
pub open spec fn fulls_kept(entries: Seq<DirEntryInfo>, n: nat, keep_full: u32) -> nat
    decreases n,
{
    if n == 0 || n > entries.len() {
        0
    } else {
        fulls_kept(entries, (n - 1) as nat, keep_full)
            + (if is_full_dir(entries[n - 1]) && !after_full_removes(entries, entries[n - 1], keep_full) { 1nat } else { 0nat })
    }
}

proof fn lemma_count_after_add(s1: Seq<Seq<char>>, s2: Seq<Seq<char>>, x: Seq<char>)
    ensures
        count_after(s1 + s2, x) == count_after(s1, x) + count_after(s2, x),
    decreases s2.len(),
{
    if s2.len() == 0 {
        assert(s1 + s2 =~= s1);
    } else {
        lemma_count_after_add(s1, s2.drop_last(), x);
        assert((s1 + s2).drop_last() =~= s1 + s2.drop_last());
        assert((s1 + s2).last() == s2.last());
    }
}

proof fn lemma_count_within_add(all: Seq<Seq<char>>, p1: Seq<Seq<char>>, p2: Seq<Seq<char>>, keep: nat)
    ensures
        count_within(all, p1 + p2, keep) == count_within(all, p1, keep) + count_within(all, p2, keep),
    decreases p2.len(),
{
    if p2.len() == 0 {
        assert(p1 + p2 =~= p1);
    } else {
        lemma_count_within_add(all, p1, p2.drop_last(), keep);
        assert((p1 + p2).drop_last() =~= p1 + p2.drop_last());
        assert((p1 + p2).last() == p2.last());
    }
}

proof fn lemma_count_within_zero(all: Seq<Seq<char>>, p: Seq<Seq<char>>)
    ensures
        count_within(all, p, 0) == 0,
    decreases p.len(),
{
    if p.len() > 0 {
        lemma_count_within_zero(all, p.drop_last());
    }
}

proof fn lemma_count_within_shift(all1: Seq<Seq<char>>, all2: Seq<Seq<char>>, p: Seq<Seq<char>>, keep: nat)
    requires
        keep >= 1,
        forall|i: int| 0 <= i < p.len() ==> count_after(all1, #[trigger] p[i]) == count_after(all2, p[i]) + 1,
    ensures
        count_within(all1, p, keep) == count_within(all2, p, (keep - 1) as nat),
    decreases p.len(),
{
    if p.len() > 0 {
        assert forall|i: int| 0 <= i < p.drop_last().len() implies
            count_after(all1, #[trigger] p.drop_last()[i]) == count_after(all2, p.drop_last()[i]) + 1 by {
            assert(p.drop_last()[i] == p[i]);
        }
        lemma_count_within_shift(all1, all2, p.drop_last(), keep);
        assert(p.last() == p[p.len() - 1]);
    }
}

/// `ns[m]` sorts no earlier than any name of `ns`.
pub open spec fn is_top(ns: Seq<Seq<char>>, m: int) -> bool {
    0 <= m < ns.len() && forall|j: int| 0 <= j < ns.len() ==> crate::order::lex_le(#[trigger] ns[j], ns[m])
}

proof fn lemma_max_exists(ns: Seq<Seq<char>>)
    requires
        ns.len() > 0,
    ensures
        exists|m: int| is_top(ns, m),
    decreases ns.len(),
{
    if ns.len() == 1 {
        crate::order::lemma_lex_reflexive(ns[0]);
        assert(forall|j: int| 0 <= j < ns.len() ==> crate::order::lex_le(#[trigger] ns[j], ns[0]));
        assert(is_top(ns, 0));
    } else {
        let init = ns.drop_last();
        lemma_max_exists(init);
        let m = choose|m: int| is_top(init, m);
        let last = ns.last();
        crate::order::lemma_lex_total(ns[m], last);
        if crate::order::lex_le(ns[m], last) {
            assert forall|j: int| 0 <= j < ns.len() implies crate::order::lex_le(#[trigger] ns[j], ns[ns.len() - 1]) by {
                if j < ns.len() - 1 {
                    assert(init[j] == ns[j]);
                    assert(init[m] == ns[m]);
                    crate::order::lemma_lex_transitive(ns[j], ns[m], last);
                } else {
                    crate::order::lemma_lex_reflexive(last);
                }
            }
            assert(is_top(ns, ns.len() - 1));
        } else {
            assert forall|j: int| 0 <= j < ns.len() implies crate::order::lex_le(#[trigger] ns[j], ns[m]) by {
                if j < ns.len() - 1 {
                    assert(init[j] == ns[j]);
                    assert(init[m] == ns[m]);
                }
            }
            assert(is_top(ns, m));
        }
    }
}

proof fn lemma_count_after_top(ns: Seq<Seq<char>>, m: Seq<char>)
    requires
        forall|j: int| 0 <= j < ns.len() ==> crate::order::lex_le(#[trigger] ns[j], m),
    ensures
        count_after(ns, m) == 0,
    decreases ns.len(),
{
    if ns.len() > 0 {
        assert forall|j: int| 0 <= j < ns.drop_last().len() implies crate::order::lex_le(#[trigger] ns.drop_last()[j], m) by {
            assert(ns.drop_last()[j] == ns[j]);
        }
        lemma_count_after_top(ns.drop_last(), m);
        let l = ns.last();
        assert(crate::order::lex_le(ns[ns.len() - 1], m));
        if crate::order::lex_lt(m, l) {
            crate::order::lemma_lex_antisymmetric(m, l);
        }
    }
}

/// Among distinct names, exactly `min(keep, n)` have fewer than `keep`
/// names sorting after them.
proof fn lemma_kept_count(ns: Seq<Seq<char>>, keep: nat)
    requires
        distinct_names(ns),
    ensures
        count_within(ns, ns, keep) == (if keep < ns.len() { keep } else { ns.len() }),
    decreases ns.len(),
{
    if ns.len() == 0 {
    } else if keep == 0 {
        lemma_count_within_zero(ns, ns);
    } else {
        lemma_max_exists(ns);
        let mi = choose|mi: int| is_top(ns, mi);
        let m = ns[mi];
        let a = ns.take(mi);
        let b = ns.skip(mi + 1);
        let rest = a + b;
        assert(ns =~= a + seq![m] + b);
        assert forall|i: int, j: int| 0 <= i < j < rest.len() implies rest[i] != rest[j] by {
            let oi = if i < a.len() { i } else { i + 1 };
            let oj = if j < a.len() { j } else { j + 1 };
            assert(rest[i] == ns[oi]);
            assert(rest[j] == ns[oj]);
        }
        lemma_kept_count(rest, (keep - 1) as nat);
        // Every other name sorts before the greatest one.
        assert forall|y: int| 0 <= y < rest.len() implies
            count_after(ns, #[trigger] rest[y]) == count_after(rest, rest[y]) + 1 by {
            let oy = if y < a.len() { y } else { y + 1 };
            assert(rest[y] == ns[oy]);
            assert(oy != mi);
            assert(crate::order::lex_le(ns[oy], m));
            assert(crate::order::lex_lt(rest[y], m));
            lemma_count_after_add(a + seq![m], b, rest[y]);
            lemma_count_after_add(a, seq![m], rest[y]);
            lemma_count_after_add(a, b, rest[y]);
            let one = seq![m];
            assert(one.drop_last() =~= Seq::<Seq<char>>::empty());
            assert(count_after(one.drop_last(), rest[y]) == 0);
            assert(one.last() == m);
            assert(count_after(one, rest[y]) == 1);
        }
        assert forall|i: int| 0 <= i < a.len() implies count_after(ns, #[trigger] a[i]) == count_after(rest, a[i]) + 1 by {
            assert(a[i] == rest[i]);
        }
        assert forall|i: int| 0 <= i < b.len() implies count_after(ns, #[trigger] b[i]) == count_after(rest, b[i]) + 1 by {
            assert(b[i] == rest[i + a.len()]);
        }
        lemma_count_within_shift(ns, rest, a, keep);
        lemma_count_within_shift(ns, rest, b, keep);
        lemma_count_within_add(rest, a, b, (keep - 1) as nat);
        assert forall|j: int| 0 <= j < ns.len() implies crate::order::lex_le(#[trigger] ns[j], m) by {}
        lemma_count_after_top(ns, m);
        let one = seq![m];
        assert(one.drop_last() =~= Seq::<Seq<char>>::empty());
        assert(count_within(ns, one.drop_last(), keep) == 0);
        assert(one.last() == m);
        assert(count_within(ns, one, keep) == 1);
        lemma_count_within_add(ns, a + seq![m], b, keep);
        lemma_count_within_add(ns, a, seq![m], keep);
    }
}

proof fn lemma_full_names_count(entries: Seq<DirEntryInfo>, x: Seq<char>)
    ensures
        newer_fulls(entries, x) == count_after(full_names(entries), x),
    decreases entries.len(),
{
    if entries.len() > 0 {
        lemma_full_names_count(entries.drop_last(), x);
        if is_full_dir(entries.last()) {
            let f = full_names(entries.drop_last());
            assert(f.push(entries.last().name@).drop_last() =~= f);
        }
    }
}

proof fn lemma_full_is_not_inc(e: DirEntryInfo)
    requires
        is_full_dir(e),
    ensures
        !is_inc_dir(e),
{
    let n = e.name@;
    reveal_strlit("full-");
    reveal_strlit("inc-");
    assert(n.take(5)[0] == n[0]);
    if is_inc_dir(e) {
        assert(n.take(4)[0] == n[0]);
    }
}

proof fn lemma_fulls_kept_upto(entries: Seq<DirEntryInfo>, n: nat, keep_full: u32)
    requires
        keep_full > 0,
        n <= entries.len(),
    ensures
        fulls_kept(entries, n, keep_full)
            == count_within(full_names(entries), full_names(entries.take(n as int)), keep_full as nat),
    decreases n,
{
    if n == 0 {
        assert(entries.take(0) =~= Seq::<DirEntryInfo>::empty());
    } else {
        lemma_fulls_kept_upto(entries, (n - 1) as nat, keep_full);
        let e = entries[n - 1];
        assert(entries.take(n as int).drop_last() =~= entries.take(n - 1));
        assert(entries.take(n as int).last() == e);
        if is_full_dir(e) {
            lemma_full_is_not_inc(e);
            lemma_full_names_count(entries, e.name@);
            let f = full_names(entries.take(n - 1));
            assert(f.push(e.name@).drop_last() =~= f);
        }
    }
}

/// With a positive limit, exactly the newest `keep_full` full snapshots
/// stay (all of them when there are fewer): the number of full snapshot
/// directories kept is the smaller of the limit and their number.
pub proof fn lemma_after_full_keeps_limit(entries: Seq<DirEntryInfo>, keep_full: u32)
    requires
        keep_full > 0,
        distinct_names(full_names(entries)),
    ensures
        fulls_kept(entries, entries.len(), keep_full) == (if keep_full < full_names(entries).len() {
            keep_full as nat
        } else {
            full_names(entries).len()
        }),
{
    lemma_fulls_kept_upto(entries, entries.len(), keep_full);
    assert(entries.take(entries.len() as int) =~= entries);
    lemma_kept_count(full_names(entries), keep_full as nat);
}

/// `name` is the name of one of the first `n` entries that goes after a
/// full snapshot.
pub open spec fn removed_entry_named(entries: Seq<DirEntryInfo>, n: nat, keep_full: u32, name: Seq<char>) -> bool {
    exists|i: int| 0 <= i < n && after_full_removes(entries, #[trigger] entries[i], keep_full)
        && entries[i].name@ == name
}

/// Every name picked after a full snapshot is the name of an entry that
/// goes by [`after_full_removes`], and every entry that goes is picked.
pub proof fn lemma_after_full_victims(entries: Seq<DirEntryInfo>, n: nat, keep_full: u32)
    requires
        n <= entries.len(),
    ensures
        forall|k: int| 0 <= k < after_full_victims_upto(entries, n, keep_full).len() ==>
            removed_entry_named(entries, n, keep_full, #[trigger] after_full_victims_upto(entries, n, keep_full)[k]),
        forall|i: int| 0 <= i < n && after_full_removes(entries, #[trigger] entries[i], keep_full) ==>
            after_full_victims_upto(entries, n, keep_full).contains(entries[i].name@),
    decreases n,
{
    if n > 0 {
        lemma_after_full_victims(entries, (n - 1) as nat, keep_full);
        let rest = after_full_victims_upto(entries, (n - 1) as nat, keep_full);
        let all = after_full_victims_upto(entries, n, keep_full);
        assert forall|k: int| 0 <= k < all.len() implies removed_entry_named(entries, n, keep_full, #[trigger] all[k]) by {
            if k < rest.len() {
                assert(all[k] == rest[k]);
                assert(removed_entry_named(entries, (n - 1) as nat, keep_full, rest[k]));
                let i = choose|i: int| 0 <= i < n - 1 && after_full_removes(entries, #[trigger] entries[i], keep_full)
                    && entries[i].name@ == rest[k];
                assert(0 <= i < n && after_full_removes(entries, entries[i], keep_full) && entries[i].name@ == all[k]);
            } else {
                assert(entries[n - 1].name@ == all[k]);
                assert(after_full_removes(entries, entries[n - 1], keep_full));
            }
        }
        assert forall|i: int| 0 <= i < n && after_full_removes(entries, #[trigger] entries[i], keep_full) implies
            all.contains(entries[i].name@) by {
            if i < n - 1 {
                let k = choose|k: int| 0 <= k < rest.len() && rest[k] == entries[i].name@;
                assert(all[k] == rest[k]);
            } else {
                assert(all[all.len() - 1] == entries[i].name@);
            }
        }
    }
}

// ── The kind a run copies ───────────────────────────────────────────────────

/// The automatic choice is carried out as chosen: an incremental is copied
/// as an incremental (not deferred), a full snapshot is prepared, and only
/// a chosen skip ends the run with the skip notice.
pub proof fn lemma_chosen_kind_is_carried_out(requested: BackupKind, settings: RunSettings, phase: PhaseView, ev: EventView)
    ensures
        run_next(requested, settings, PhaseView::Choosing, EventView::KindChosen(BackupKind::Incremental))
            == (PhaseView::Copying { kind: BackupKind::Incremental, deferred: false },
                StepView::Copy { kind: BackupKind::Incremental, deferred: false }),
        run_next(BackupKind::Incremental, settings, PhaseView::Resolving, EventView::DestinationReady)
            == (PhaseView::Copying { kind: BackupKind::Incremental, deferred: false },
                StepView::Copy { kind: BackupKind::Incremental, deferred: false }),
        run_next(requested, settings, PhaseView::Choosing, EventView::KindChosen(BackupKind::Full))
            == (PhaseView::Preparing, StepView::PrepareFull),
        (ev matches EventView::KindChosen(k) && run_next(requested, settings, phase, ev).1 is Finish)
            ==> ev == EventView::KindChosen(BackupKind::Skip),
        run_next(requested, settings, phase, EventView::KindChosen(BackupKind::Skip))
            == (PhaseView::Finished, StepView::Finish(Ok(skip_period_text(settings.period)))),
{
}

// ── The automatic choice off the full day ───────────────────────────────────

/// Off the configured full day, with a full snapshot present and no full
/// snapshot owed, the automatic choice is never a full snapshot: it is an
/// incremental once the incremental period (at least one day) has passed
/// since the latest snapshot, or when no date can be read from it, and a
/// skip before that.
pub proof fn lemma_auto_off_the_full_day(full_exists: bool, latest_day: Option<i32>, today: i32, period: u32)
    requires
        full_exists,
    ensures
        auto_decision(false, full_exists, false, latest_day, today, period) != BackupKind::Full,
        latest_day is None ==> auto_decision(false, full_exists, false, latest_day, today, period) == BackupKind::Incremental,
        latest_day matches Some(d) && (today as int) - (d as int) >= period && (today as int) - (d as int) >= 1
            ==> auto_decision(false, full_exists, false, latest_day, today, period) == BackupKind::Incremental,
        latest_day matches Some(d) && ((today as int) - (d as int) < period || (today as int) - (d as int) < 1)
            ==> auto_decision(false, full_exists, false, latest_day, today, period) == BackupKind::Skip,
{
}

// ── Which partitions are offered ────────────────────────────────────────────

/// A listed partition: never mounted at the root, home or another system
/// location (nor swap), and always with a filesystem that can hold backups.
pub open spec fn offerable(v: DriveView) -> bool {
    &&& v.mountpoint matches Some(m) ==> !(m == "/"@ || m == "/home"@ || m == "/boot"@ || m == "/boot/efi"@
        || m == "/boot/grub"@ || m == "/boot/grub2"@ || m == "/usr"@ || m == "/var"@ || m == "/tmp"@
        || m == "/opt"@ || m == "/srv"@ || m == "[SWAP]"@)
    &&& v.fstype matches Some(fs) && (fs == "ext4"@ || fs == "ext3"@ || fs == "ext2"@ || fs == "xfs"@
        || fs == "btrfs"@ || fs == "ntfs"@ || fs == "exfat"@ || fs == "vfat"@)
}

proof fn lemma_collect_device_offerable(d: LsblkDevice, parent_removable: bool)
    ensures
        forall|i: int| 0 <= i < collect_device(d, parent_removable).len()
            ==> offerable(#[trigger] collect_device(d, parent_removable)[i]),
    decreases d,
{
    let removable = flag_removable(d.removable) || parent_removable;
    if !is_system_partition(d) {
        let own: Seq<DriveView> = if is_partition(d) && (d.fstype matches Some(fs) && is_usable_fs(fs@)) {
            seq![drive_view_of(d, removable)]
        } else {
            seq![]
        };
        let below: Seq<DriveView> = match d.children {
            Some(ch) => collect_all(ch@, removable),
            None => seq![],
        };
        match d.children {
            Some(ch) => {
                assert(decreases_to!(d => d.children));
                assert(decreases_to!(d.children => d.children->0));
                assert(decreases_to!(ch => ch@));
                lemma_collect_all_offerable(ch@, removable);
            }
            None => {}
        }
        assert(collect_device(d, parent_removable) == own + below);
        assert forall|i: int| 0 <= i < (own + below).len() implies offerable(#[trigger] (own + below)[i]) by {
            if i < own.len() {
                assert((own + below)[i] == drive_view_of(d, removable));
            } else {
                assert((own + below)[i] == below[i - own.len()]);
            }
        }
    }
}

proof fn lemma_collect_all_offerable(ds: Seq<LsblkDevice>, parent_removable: bool)
    ensures
        forall|i: int| 0 <= i < collect_all(ds, parent_removable).len()
            ==> offerable(#[trigger] collect_all(ds, parent_removable)[i]),
    decreases ds,
{
    if ds.len() > 0 {
        let a = collect_all(ds.drop_last(), parent_removable);
        let b = collect_device(ds.last(), parent_removable);
        assert(decreases_to!(ds => ds.drop_last()));
        lemma_collect_all_offerable(ds.drop_last(), parent_removable);
        assert(decreases_to!(ds => ds[ds.len() - 1]));
        lemma_collect_device_offerable(ds.last(), parent_removable);
        assert forall|i: int| 0 <= i < (a + b).len() implies offerable(#[trigger] (a + b)[i]) by {
            if i < a.len() {
                assert((a + b)[i] == a[i]);
            } else {
                assert((a + b)[i] == b[i - a.len()]);
            }
        }
    }
}

/// No partition mounted at the root, home or another system location is
/// ever offered as a backup destination, and every offered partition has a
/// filesystem that can hold backups: true of the list in lsblk's order and
/// of the sorted list shown.
pub proof fn lemma_offered_drives(devices: Seq<LsblkDevice>, shown: Seq<DriveView>)
    requires
        exists|perm: Seq<int>| is_stable_sort(shown, collect_all(devices, false), perm),
    ensures
        forall|i: int| 0 <= i < collect_all(devices, false).len() ==> offerable(#[trigger] collect_all(devices, false)[i]),
        forall|i: int| 0 <= i < shown.len() ==> offerable(#[trigger] shown[i]),
{
    lemma_collect_all_offerable(devices, false);
    let perm = choose|perm: Seq<int>| is_stable_sort(shown, collect_all(devices, false), perm);
    assert forall|i: int| 0 <= i < shown.len() implies offerable(#[trigger] shown[i]) by {
        assert(shown[i] == collect_all(devices, false)[perm[i]]);
    }
}

/// A partition with a filesystem that can hold backups, not mounted at a
/// system location, is offered first among what its device contributes,
/// under its own name and mountpoint, removable when it or a parent is;
/// a partition mounted at a system location hides itself and everything
/// below it.
pub proof fn lemma_usable_partition_is_offered(d: LsblkDevice, parent_removable: bool)
    ensures
        ({
            let m = crate::config::opt_view(d.mountpoint);
            &&& crate::config::opt_view(d.kind) == Some("part"@)
            &&& crate::config::opt_view(d.fstype) matches Some(fs) && (fs == "ext4"@ || fs == "ext3"@ || fs == "ext2"@
                || fs == "xfs"@ || fs == "btrfs"@ || fs == "ntfs"@ || fs == "exfat"@ || fs == "vfat"@)
            &&& m matches Some(mp) ==> !(mp == "/"@ || mp == "/home"@ || mp == "/boot"@ || mp == "/boot/efi"@
                || mp == "/boot/grub"@ || mp == "/boot/grub2"@ || mp == "/usr"@ || mp == "/var"@ || mp == "/tmp"@
                || mp == "/opt"@ || mp == "/srv"@ || mp == "[SWAP]"@)
        }) ==> {
            &&& collect_device(d, parent_removable).len() >= 1
            &&& collect_device(d, parent_removable)[0].name == d.name@
            &&& collect_device(d, parent_removable)[0].mountpoint == crate::config::opt_view(d.mountpoint)
            &&& collect_device(d, parent_removable)[0].removable == (flag_removable(d.removable) || parent_removable)
        },
        ({
            &&& crate::config::opt_view(d.kind) == Some("part"@)
            &&& crate::config::opt_view(d.mountpoint) matches Some(mp) && (mp == "/"@ || mp == "/home"@)
        }) ==> collect_device(d, parent_removable).len() == 0,
{
}

// ── The snapshot `--link-dest` uses ─────────────────────────────────────────

/// The latest snapshot is always a `full-…` or `inc-…` directory (never the
/// `latest` link or any other entry): the one with the greatest name among
/// them, joined to the destination; there is none only when no such
/// directory exists.
pub proof fn lemma_latest_is_a_snapshot(dest_root: Seq<char>, entries: Seq<DirEntryInfo>, r: Option<String>)
    requires
        latest_snapshot_spec(dest_root, entries, r),
    ensures
        r matches Some(p) ==> exists|i: int| 0 <= i < entries.len()
            && (#[trigger] entries[i]).is_dir
            && (starts_with(entries[i].name@, "full-"@) || starts_with(entries[i].name@, "inc-"@))
            && p@ == path_join(dest_root, entries[i].name@)
            && forall|j: int| 0 <= j < entries.len() && (#[trigger] entries[j]).is_dir
                && (starts_with(entries[j].name@, "full-"@) || starts_with(entries[j].name@, "inc-"@))
                ==> lex_le(entries[j].name@, entries[i].name@),
        r is None ==> forall|i: int| 0 <= i < entries.len() && (#[trigger] entries[i]).is_dir
            ==> !starts_with(entries[i].name@, "full-"@) && !starts_with(entries[i].name@, "inc-"@),
        forall|n: Seq<char>| #[trigger] is_snapshot_name(n) <==> (starts_with(n, "full-"@) || starts_with(n, "inc-"@)),
{
    match r {
        Some(p) => {
            let i = choose|i: int| 0 <= i < entries.len() && is_snapshot_dir(#[trigger] entries[i])
                && p@ == path_join(dest_root, entries[i].name@)
                && forall|j: int| 0 <= j < entries.len() && is_snapshot_dir(#[trigger] entries[j])
                    ==> lex_le(entries[j].name@, entries[i].name@);
            assert forall|j: int| 0 <= j < entries.len() && (#[trigger] entries[j]).is_dir
                && (starts_with(entries[j].name@, "full-"@) || starts_with(entries[j].name@, "inc-"@))
                implies lex_le(entries[j].name@, entries[i].name@) by {
                assert(is_snapshot_dir(entries[j]));
            }
        }
        None => {
            assert forall|i: int| 0 <= i < entries.len() && (#[trigger] entries[i]).is_dir
                implies !starts_with(entries[i].name@, "full-"@) && !starts_with(entries[i].name@, "inc-"@) by {
                assert(!is_snapshot_dir(entries[i]));
            }
        }
    }
}

} // verus!

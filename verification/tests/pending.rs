use backup_tool::pending_full::{
    clear_pending_after_success, pending_full_backup, pending_full_for_auto, persist_pending,
    retry_marker_path, retry_marker_path_in, set_pending_full_backup, set_pending_full_backup_with_retry, state_read,
    state_text_is_blank, AutoPendingAction, PendingFullState, PendingRead, PersistStep, RetryStep,
};

#[test]
fn default_pending_state_is_false() {
    assert!(!PendingFullState::default().pending_full_backup);
}

#[test]
fn marker_survives_corrupt_toml() {
    // The file does not parse, but the marker exists: the run answers yes
    // after moving the file aside.
    let read = state_read(&Some("not valid toml {{{".to_string()), None);
    assert_eq!(read, PendingRead::Unreadable);
    assert_eq!(pending_full_for_auto(read, true), AutoPendingAction::QuarantineThenYes);
    assert_eq!(pending_full_for_auto(read, false), AutoPendingAction::QuarantineThenFail);
}

#[test]
fn marker_fallback_reconciles_stale_false_toml() {
    let read = state_read(&Some("pending_full_backup = false\n".to_string()), Some(false));
    assert_eq!(read, PendingRead::Flag(false));
    assert_eq!(pending_full_for_auto(read, true), AutoPendingAction::RestoreThenYes);
    assert_eq!(pending_full_backup(PendingRead::Flag(true)), Some(true));
}

#[test]
fn stale_marker_cleared_when_toml_is_false() {
    // Clearing removes the marker first, then writes the file as false.
    assert_eq!(
        persist_pending(false),
        vec![PersistStep::SetMarker(false), PersistStep::WriteState(false)]
    );
    let read = state_read(&Some("pending_full_backup = false\n".to_string()), Some(false));
    assert_eq!(pending_full_for_auto(read, false), AutoPendingAction::Answer(false));
}

#[test]
fn persist_and_read_round_trip() {
    assert_eq!(
        persist_pending(true),
        vec![PersistStep::WriteState(true), PersistStep::SetMarker(true)]
    );
    let read = state_read(&Some("pending_full_backup = true\n".to_string()), Some(true));
    assert_eq!(pending_full_for_auto(read, true), AutoPendingAction::Answer(true));
}

#[test]
fn missing_file_defers_to_the_marker() {
    let read = state_read(&None, None);
    assert_eq!(read, PendingRead::Missing);
    assert_eq!(pending_full_for_auto(read, true), AutoPendingAction::Answer(true));
    assert_eq!(pending_full_for_auto(read, false), AutoPendingAction::Answer(false));
    assert_eq!(pending_full_backup(read), Some(false));
}

#[test]
fn blank_state_file_is_unreadable() {
    assert!(state_text_is_blank("  \n\t"));
    assert!(!state_text_is_blank("x"));
    assert_eq!(state_read(&Some(" \n".to_string()), Some(true)), PendingRead::Unreadable);
    assert_eq!(pending_full_backup(PendingRead::Unreadable), None);
}

#[test]
fn writes_are_retried_then_fall_back() {
    let mut run = set_pending_full_backup(true);
    assert_eq!((run.attempts, run.delay_ms), (3, 50));
    assert_eq!(run.after_attempt(false), RetryStep::SleepThenRetry(50));
    assert_eq!(run.after_attempt(false), RetryStep::SleepThenRetry(50));
    assert_eq!(run.after_attempt(false), RetryStep::FallBackToMarker);

    let mut clear = clear_pending_after_success();
    assert_eq!((clear.attempts, clear.delay_ms), (10, 100));
    for _ in 0..9 {
        assert_eq!(clear.after_attempt(false), RetryStep::SleepThenRetry(100));
    }
    assert_eq!(clear.after_attempt(false), RetryStep::GiveUp);

    let mut ok = set_pending_full_backup(false);
    assert_eq!(ok.after_attempt(true), RetryStep::Done);
}

#[test]
fn state_files_live_in_the_data_dir() {
    assert_eq!(PendingFullState::path_in("/d"), "/d/pending-full.toml");
    assert_eq!(PendingFullState::lock_path_in("/d/"), "/d/pending-full.lock");
    assert_eq!(retry_marker_path_in("rel"), "rel/pending-full.retry");
    assert!(PendingFullState::path(&None).ends_with("backup-tool/pending-full.toml"));
    assert!(PendingFullState::lock_path(&None).ends_with("backup-tool/pending-full.lock"));
    assert!(retry_marker_path(&None).ends_with("backup-tool/pending-full.retry"));
}

#[test]
fn setting_the_flag_is_the_retrying_write() {
    for p in [false, true] {
        let a = set_pending_full_backup(p);
        let b = set_pending_full_backup_with_retry(p);
        assert_eq!((a.pending, a.attempts, a.delay_ms, a.tried), (b.pending, b.attempts, b.delay_ms, b.tried));
        assert_eq!(b.pending, p);
    }
}

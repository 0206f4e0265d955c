use backup_tool::backup::{
    after_full_victims, archived_log_path, archived_log_text, auto_kind, copy_rsync_args, rotate_log, rsync_detail_log_in, build_summary, completed_log_line, decide_full_prep,
    deferred_message, full_snapshot_exists, link_dest_for, resolve_latest, retention_log_line,
    retention_victims, rsync_args, snapshot_day, snapshot_dir_name, snapshot_prefix,
    space_check_log_line, staging_dir_name, weekday_name, BackupKind, BackupRun, RunSettings, DestEvent, DestResolver,
    DestStep, DirEntryInfo, EntryAge, FullPrep, RunEvent, RunStep, Today,
};
use backup_tool::config::Config;
use chrono::Datelike;

fn dir(name: &str) -> DirEntryInfo {
    DirEntryInfo { name: name.to_string(), is_dir: true }
}

fn file(name: &str) -> DirEntryInfo {
    DirEntryInfo { name: name.to_string(), is_dir: false }
}

fn day(text: &str) -> i32 {
    chrono::NaiveDate::parse_from_str(text, "%Y-%m-%d").unwrap().num_days_from_ce()
}

#[test]
fn resolve_latest_empty_dir_returns_none() {
    assert!(resolve_latest("/b", &vec![]).is_none());
}

#[test]
fn resolve_latest_ignores_inprogress_dirs() {
    assert!(resolve_latest("/b", &vec![dir(".inprogress-full-2024-01-01_120000")]).is_none());
}

#[test]
fn resolve_latest_returns_lexicographically_last() {
    let entries = vec![
        dir("full-2024-01-01_120000"),
        dir("inc-2024-01-02_120000"),
        dir("inc-2024-01-03_090000"),
        dir(".inprogress-inc-2024-01-04_120000"),
    ];
    assert_eq!(resolve_latest("/b", &entries).unwrap(), "/b/inc-2024-01-03_090000");
}

#[test]
fn resolve_latest_skips_plain_files() {
    let entries = vec![dir("full-2024-01-01_120000"), file("inc-2030-01-01_000000")];
    assert_eq!(resolve_latest("/b/", &entries).unwrap(), "/b/full-2024-01-01_120000");
}

fn neverday() -> Config {
    Config { full_backup_day: "Neverday".to_string(), incremental_every_n_days: 1, ..Config::default() }
}

#[test]
fn auto_kind_full_when_no_full_snapshot_exists() {
    let today = Today { day: day("2024-01-02") };
    let entries = vec![dir("inc-2024-01-01_120000")];
    assert_eq!(auto_kind(&neverday(), &today, &entries, false), BackupKind::Full);
}

#[test]
fn auto_kind_skips_when_recent_incremental_within_period() {
    let today = Today { day: day("2024-05-07") };
    let entries = vec![
        dir("full-2020-01-01_120000"),
        dir("inc-2024-05-07_120000"),
        file("latest"),
    ];
    assert_eq!(auto_kind(&neverday(), &today, &entries, false), BackupKind::Skip);
}

#[test]
fn auto_kind_incremental_when_period_elapsed() {
    let today = Today { day: day("2024-05-07") };
    let entries = vec![dir("full-2020-01-01_120000"), dir("inc-2024-05-02_120000")];
    assert_eq!(auto_kind(&neverday(), &today, &entries, false), BackupKind::Incremental);
}

#[test]
fn auto_kind_full_on_the_configured_day_in_any_case() {
    let cfg = Config { full_backup_day: "monday".to_string(), ..Config::default() };
    let today = Today { day: day("2024-05-06") };
    let entries = vec![dir("full-2024-05-06_010000")];
    assert_eq!(auto_kind(&cfg, &today, &entries, false), BackupKind::Full);
}

#[test]
fn auto_kind_honours_longer_periods() {
    let cfg = Config { full_backup_day: "Neverday".to_string(), incremental_every_n_days: 3, ..Config::default() };
    let entries = vec![dir("full-2024-05-01_010000"), dir("inc-2024-05-05_010000")];
    let on = |d: &str| auto_kind(&cfg, &Today { day: day(d) }, &entries, false);
    assert_eq!(on("2024-05-07"), BackupKind::Skip);
    assert_eq!(on("2024-05-08"), BackupKind::Incremental);
    // A latest name without a readable date does not skip.
    let odd = vec![dir("full-2024-05-01_010000"), dir("inc-garbage")];
    assert_eq!(auto_kind(&cfg, &Today { day: day("2024-05-07") }, &odd, false), BackupKind::Incremental);
}

#[test]
fn auto_kind_retries_a_deferred_full() {
    let cfg = neverday();
    let today = Today { day: day("2024-05-07") };
    let entries = vec![dir("full-2024-05-01_010000"), dir("inc-2024-05-07_010000")];
    assert_eq!(auto_kind(&cfg, &today, &entries, false), BackupKind::Skip);
    assert_eq!(auto_kind(&cfg, &today, &entries, true), BackupKind::Full);
    let older = vec![dir("full-2024-05-01_010000"), dir("inc-2024-05-02_010000")];
    assert_eq!(auto_kind(&cfg, &today, &older, false), BackupKind::Incremental);
    assert_eq!(auto_kind(&cfg, &today, &older, true), BackupKind::Full);
}

#[test]
fn snapshot_day_reads_the_date_after_the_prefix() {
    assert_eq!(snapshot_day("full-2024-01-01_120000"), Some(day("2024-01-01")));
    assert_eq!(snapshot_day("inc-2024-02-29_000000"), Some(day("2024-02-29")));
    assert_eq!(snapshot_day("inc-2023-02-29_000000"), None);
    assert_eq!(snapshot_day("latest"), None);
    assert_eq!(snapshot_day("inc-2024"), None);
}

#[test]
fn full_snapshot_presence_counts_any_entry() {
    assert!(full_snapshot_exists(&vec![file("full-notes")]));
    assert!(!full_snapshot_exists(&vec![dir("inc-2024-01-01_000000")]));
}

fn aged(name: &str, ns: Option<i128>) -> EntryAge {
    EntryAge { name: name.to_string(), modified_ns: ns }
}

#[test]
fn apply_retention_never_removes_full_snapshots() {
    let entries = vec![aged("full-2020-01-01_120000", Some(0))];
    assert!(retention_victims(&entries, i128::MAX).is_empty());
}

#[test]
fn apply_retention_removes_old_incrementals() {
    let entries = vec![aged("inc-2020-01-01_120000", Some(1_577_836_800_000_000_000))];
    assert_eq!(retention_victims(&entries, 1_700_000_000_000_000_000), vec!["inc-2020-01-01_120000".to_string()]);
}

#[test]
fn apply_retention_keeps_recent_incrementals() {
    let entries = vec![aged("inc-2099-01-01_120000", Some(1_700_000_000_000_000_000))];
    assert!(retention_victims(&entries, 1_690_000_000_000_000_000).is_empty());
}

#[test]
fn retention_skips_unreadable_times_and_keeps_order() {
    let entries = vec![
        aged("inc-b", Some(1)),
        aged("inc-a", None),
        aged("full-x", Some(1)),
        aged("inc-c", Some(5)),
        aged("inc-d", Some(10)),
    ];
    assert_eq!(retention_victims(&entries, 10), vec!["inc-b".to_string(), "inc-c".to_string()]);
    assert_eq!(retention_log_line("T", "inc-b", &None), "[T] Retention: removed inc-b");
    assert_eq!(
        retention_log_line("T", "inc-b", &Some("busy".to_string())),
        "[T] WARNING: could not remove old snapshot inc-b: busy"
    );
}

#[test]
fn after_a_full_the_cycle_and_old_fulls_go() {
    let entries = vec![
        dir("full-2024-01-01_000000"),
        dir("inc-2024-01-02_000000"),
        dir("full-2024-02-01_000000"),
        dir("full-2024-03-01_000000"),
        file("full-1999-01-01_000000"),
        dir("latest"),
        dir("inc-2024-03-02_000000"),
    ];
    assert_eq!(
        after_full_victims(&entries, 2),
        vec!["full-2024-01-01_000000".to_string(), "inc-2024-01-02_000000".to_string(), "inc-2024-03-02_000000".to_string()]
    );
    assert_eq!(
        after_full_victims(&entries, 0),
        vec!["inc-2024-01-02_000000".to_string(), "inc-2024-03-02_000000".to_string()]
    );
    assert_eq!(after_full_victims(&entries, 1).len(), 4);
    assert_eq!(after_full_victims(&entries, 3).len(), 2);
}

#[test]
fn space_check_decides_between_full_incremental_and_nothing() {
    assert_eq!(decide_full_prep(10, 10, false), FullPrep::Proceed);
    assert_eq!(decide_full_prep(9, 10, true), FullPrep::DeferredToIncremental { available: 9, needed: 10 });
    assert_eq!(decide_full_prep(9, 10, false), FullPrep::Blocked { available: 9, needed: 10 });
    assert_eq!(space_check_log_line("T", 2048, 1024), "[T] Space check passed: 2.0 KiB free, 1.0 KiB required");
    assert_eq!(space_check_log_line("T", 1, 1024), "[T] Space check failed: 1 B free, 1.0 KiB required");
    assert_eq!(
        deferred_message(1, 1024),
        "Full backup deferred (1 B free, 1.0 KiB needed) — running incremental instead."
    );
}

#[test]
fn names_and_arguments_of_a_snapshot() {
    assert_eq!(snapshot_prefix(BackupKind::Full), "full");
    assert_eq!(snapshot_prefix(BackupKind::Incremental), "inc");
    assert_eq!(snapshot_dir_name(BackupKind::Full, "2024-01-01_120000"), "full-2024-01-01_120000");
    assert_eq!(staging_dir_name(BackupKind::Incremental, "S"), ".inprogress-inc-S");
    assert_eq!(
        rsync_args("/d/excludes.tmp", "/d/backup.log", &Some("/b/inc-1".to_string()), "/home/u", "/b/.inprogress-inc-2"),
        vec![
            "--archive", "--delete", "--numeric-ids", "--human-readable", "--stats",
            "--exclude-from=/d/excludes.tmp", "--log-file=/d/backup.log", "--link-dest=/b/inc-1",
            "/home/u/", "/b/.inprogress-inc-2",
        ]
    );
    assert_eq!(rsync_args("e", "l", &None, "s", "t").len(), 9);
    assert_eq!(link_dest_for(BackupKind::Full, Some("x".to_string())), None);
    assert_eq!(link_dest_for(BackupKind::Incremental, Some("x".to_string())), Some("x".to_string()));
    assert_eq!(completed_log_line("T", BackupKind::Full, "full-S"), "[T] Completed full snapshot: full-S");
}

#[test]
fn summary_keeps_the_stats_lines() {
    let out = "sending\nNumber of files: 10\nfoo\r\nTotal file size: 5 bytes\r\nLiteral data: 3\n";
    assert_eq!(
        build_summary("inc", "/b/inc-2024-01-01_000000", out),
        "✅  inc snapshot complete\nSnapshot: inc-2024-01-01_000000\n\nNumber of files: 10\nTotal file size: 5 bytes\nLiteral data: 3"
    );
    assert_eq!(build_summary("full", "/", ""), "✅  full snapshot complete\nSnapshot: \n\n");
}

fn finish(s: RunStep) -> Result<String, String> {
    match s {
        RunStep::Finish(r) => r,
        other => panic!("expected the end of the run, got {other:?}"),
    }
}

fn copied(exit_code: i32, kind: &str, stdout: &str) -> RunEvent {
    RunEvent::CopyFinished {
        exit_code,
        staging_dir: format!("/b/.inprogress-{kind}-S"),
        final_dir: format!("/b/{kind}-S"),
        stdout: stdout.to_string(),
    }
}

fn settings(period: u32) -> RunSettings {
    RunSettings { period, retention_days: 30, keep_full_snapshots: 12 }
}

fn started(kind: BackupKind, period: u32) -> BackupRun {
    let mut run = BackupRun::new(kind, settings(period));
    run.next(RunEvent::Begin);
    assert!(matches!(run.next(RunEvent::LockAcquired(true)), RunStep::ResolveDestination));
    run
}

#[test]
fn run_of_a_full_snapshot_commits_after_rsync() {
    let mut run = BackupRun::new(BackupKind::Auto, settings(1));
    assert!(matches!(run.next(RunEvent::Begin), RunStep::AcquireLock { wait_ms: 3_600_000 }));
    assert!(matches!(run.next(RunEvent::LockAcquired(true)), RunStep::ResolveDestination));
    assert!(matches!(run.next(RunEvent::DestinationReady), RunStep::ChooseKind));
    assert!(matches!(run.next(RunEvent::KindChosen(BackupKind::Full)), RunStep::PrepareFull));
    assert!(matches!(
        run.next(RunEvent::SpaceChecked(FullPrep::Proceed)),
        RunStep::Copy { kind: BackupKind::Full, deferred: false }
    ));
    match run.next(copied(24, "full", "Number of files: 1\n")) {
        RunStep::Commit { kind: BackupKind::Full, vanished: true, staging_dir, final_dir } => {
            assert_eq!(staging_dir, "/b/.inprogress-full-S");
            assert_eq!(final_dir, "/b/full-S");
        }
        other => panic!("expected the commit, got {other:?}"),
    }
    assert!(matches!(run.next(RunEvent::Committed), RunStep::UpdateLatest { ref final_dir } if final_dir == "/b/full-S"));
    assert!(matches!(run.next(RunEvent::LatestUpdated), RunStep::ApplyRetention { retention_days: 30 }));
    assert!(matches!(run.next(RunEvent::RetentionApplied), RunStep::PruneAfterFull { keep_full: 12 }));
    assert!(matches!(run.next(RunEvent::Pruned), RunStep::RotateLog { ref final_dir } if final_dir == "/b/full-S"));
    assert!(matches!(run.next(RunEvent::LogRotated), RunStep::Notify { kind: BackupKind::Full }));
    assert!(matches!(run.next(RunEvent::Notified), RunStep::ClearPending));
    assert_eq!(
        finish(run.next(RunEvent::PendingCleared)).unwrap(),
        "✅  full snapshot complete\nSnapshot: full-S\n\nNumber of files: 1"
    );
}

#[test]
fn post_commit_steps_follow_the_settings() {
    let cfg = Config { retention_days: 7, keep_full_snapshots: 0, incremental_every_n_days: 2, ..Config::default() };
    let s = RunSettings::of(&cfg);
    assert_eq!((s.period, s.retention_days, s.keep_full_snapshots), (2, 7, 0));
    let mut run = BackupRun::new(BackupKind::Full, s);
    run.next(RunEvent::Begin);
    run.next(RunEvent::LockAcquired(true));
    run.next(RunEvent::DestinationReady);
    run.next(RunEvent::SpaceChecked(FullPrep::Proceed));
    run.next(copied(0, "full", ""));
    run.next(RunEvent::Committed);
    assert!(matches!(run.next(RunEvent::LatestUpdated), RunStep::ApplyRetention { retention_days: 7 }));
    assert!(matches!(run.next(RunEvent::RetentionApplied), RunStep::PruneAfterFull { keep_full: 0 }));

    let mut failing = started(BackupKind::Incremental, 1);
    failing.next(RunEvent::DestinationReady);
    failing.next(copied(0, "inc", ""));
    failing.next(RunEvent::Committed);
    failing.next(RunEvent::LatestUpdated);
    assert_eq!(finish(failing.next(RunEvent::Failed("reading /b".to_string()))).unwrap_err(), "reading /b");
}

#[test]
fn run_takes_the_lock_first() {
    let mut manual = BackupRun::new(BackupKind::Full, settings(1));
    assert!(matches!(manual.next(RunEvent::Begin), RunStep::AcquireLock { wait_ms: 0 }));
    assert_eq!(finish(manual.next(RunEvent::LockAcquired(false))).unwrap_err(), "another backup is already running");
    let mut broken = BackupRun::new(BackupKind::Incremental, settings(1));
    broken.next(RunEvent::Begin);
    assert_eq!(finish(broken.next(RunEvent::Failed("locking backup run".to_string()))).unwrap_err(), "locking backup run");
}

#[test]
fn run_with_a_deferred_full_copies_an_incremental() {
    let mut run = started(BackupKind::Full, 1);
    assert!(matches!(run.next(RunEvent::DestinationReady), RunStep::PrepareFull));
    assert!(matches!(
        run.next(RunEvent::SpaceChecked(FullPrep::DeferredToIncremental { available: 1, needed: 2 })),
        RunStep::RecordDeferral
    ));
    assert!(matches!(
        run.next(RunEvent::DeferralRecorded),
        RunStep::Copy { kind: BackupKind::Incremental, deferred: true }
    ));
    assert!(matches!(run.next(copied(0, "inc", "")), RunStep::Commit { kind: BackupKind::Incremental, vanished: false, .. }));
    assert!(matches!(run.next(RunEvent::Committed), RunStep::UpdateLatest { ref final_dir } if final_dir == "/b/inc-S"));
    assert!(matches!(run.next(RunEvent::LatestUpdated), RunStep::ApplyRetention { retention_days: 30 }));
    // An incremental neither prunes full snapshots nor rotates the log.
    assert!(matches!(run.next(RunEvent::RetentionApplied), RunStep::Notify { kind: BackupKind::Incremental }));
    assert_eq!(
        finish(run.next(RunEvent::Notified)).unwrap(),
        "⚠️  Scheduled full backup deferred (insufficient space after pruning).\n\n✅  inc snapshot complete\nSnapshot: inc-S\n\n"
    );
}

#[test]
fn run_ends_without_copying_when_blocked_or_skipped() {
    let mut run = started(BackupKind::Full, 1);
    run.next(RunEvent::DestinationReady);
    assert!(matches!(
        run.next(RunEvent::SpaceChecked(FullPrep::Blocked { available: 1, needed: 1024 })),
        RunStep::RecordDeferral
    ));
    assert_eq!(
        finish(run.next(RunEvent::DeferralRecorded)).unwrap(),
        "Full backup deferred: need 1.0 KiB free but only 1 B available.\nOld incrementals were pruned; remove old full-* snapshots or free space on the drive."
    );
    let mut skip = started(BackupKind::Skip, 1);
    assert_eq!(finish(skip.next(RunEvent::DestinationReady)).unwrap(), "Backup skipped (called with Skip kind directly).");
    let mut auto = started(BackupKind::Auto, 3);
    auto.next(RunEvent::DestinationReady);
    assert_eq!(
        finish(auto.next(RunEvent::KindChosen(BackupKind::Skip))).unwrap(),
        "Backup skipped (incremental period 3d — last snapshot is recent enough)."
    );
}

#[test]
fn run_reports_rsync_and_outside_failures() {
    let mut run = started(BackupKind::Incremental, 1);
    assert!(matches!(run.next(RunEvent::DestinationReady), RunStep::Copy { kind: BackupKind::Incremental, deferred: false }));
    assert!(matches!(run.next(copied(23, "inc", "")), RunStep::RemoveStaging(ref d) if d == "/b/.inprogress-inc-S"));
    assert_eq!(finish(run.next(RunEvent::StagingRemoved)).unwrap_err(), "rsync failed with exit code 23");
    let mut killed = started(BackupKind::Incremental, 1);
    killed.next(RunEvent::DestinationReady);
    assert!(matches!(killed.next(copied(-1, "inc", "")), RunStep::RemoveStaging(_)));
    assert_eq!(finish(killed.next(RunEvent::StagingRemoved)).unwrap_err(), "rsync failed with exit code -1");
    let mut failing = started(BackupKind::Full, 1);
    assert_eq!(finish(failing.next(RunEvent::Failed("boom".to_string()))).unwrap_err(), "boom");
}

fn dest_finish(s: DestStep) -> Result<String, String> {
    match s {
        DestStep::Finish(r) => r,
        other => panic!("expected the end, got {other:?}"),
    }
}

#[test]
fn destination_reachable_directly() {
    let mut d = DestResolver::new("/mnt/b/host", &None);
    assert!(matches!(d.next(DestEvent::Begin), DestStep::CheckExists(ref p) if p == "/mnt/b/host"));
    assert_eq!(dest_finish(d.next(DestEvent::Exists(true))).unwrap(), "/mnt/b/host");
}

#[test]
fn destination_without_uuid_is_unreachable() {
    let mut d = DestResolver::new("/mnt/b/host", &None);
    d.next(DestEvent::Begin);
    assert_eq!(
        dest_finish(d.next(DestEvent::Exists(false))).unwrap_err(),
        "Backup destination '/mnt/b/host' is not accessible and could not be auto-mounted.\nPlease plug in the backup drive and try again."
    );
}

#[test]
fn destination_on_an_already_mounted_drive() {
    let mut d = DestResolver::new("/mnt/b/host", &Some("U".to_string()));
    d.next(DestEvent::Begin);
    assert!(matches!(d.next(DestEvent::Exists(false)), DestStep::FindMount(ref u) if u == "U"));
    assert!(matches!(
        d.next(DestEvent::MountFound(Some("/run/media/x".to_string()))),
        DestStep::CheckExists(ref p) if p == "/run/media/x/mnt/b/host"
    ));
    assert!(matches!(d.next(DestEvent::Exists(false)), DestStep::CreateDir(ref p) if p == "/mnt/b/host"));
    assert!(matches!(d.next(DestEvent::Created(Ok(()))), DestStep::CheckExists(ref p) if p == "/mnt/b/host"));
    assert_eq!(dest_finish(d.next(DestEvent::Exists(true))).unwrap(), "/mnt/b/host");

    // Found below the mountpoint, but the destination itself must exist.
    let mut g = DestResolver::new("/mnt/b/host", &Some("U".to_string()));
    g.next(DestEvent::Begin);
    g.next(DestEvent::Exists(false));
    g.next(DestEvent::MountFound(Some("/run/media/x".to_string())));
    assert!(matches!(g.next(DestEvent::Exists(true)), DestStep::CheckExists(ref p) if p == "/mnt/b/host"));
    assert!(dest_finish(g.next(DestEvent::Exists(false))).is_err());

    let mut h = DestResolver::new("/mnt/b/host", &Some("U".to_string()));
    h.next(DestEvent::Begin);
    h.next(DestEvent::Exists(false));
    h.next(DestEvent::MountFound(Some("/run/media/x".to_string())));
    h.next(DestEvent::Exists(false));
    assert_eq!(
        dest_finish(h.next(DestEvent::Created(Err("Permission denied (os error 13)".to_string())))).unwrap_err(),
        "creating dest dir /mnt/b/host: Permission denied (os error 13)"
    );
}

#[test]
fn destination_after_mounting() {
    let mut d = DestResolver::new("/run/media/x/host", &Some("U".to_string()));
    d.next(DestEvent::Begin);
    d.next(DestEvent::Exists(false));
    assert!(matches!(d.next(DestEvent::MountFound(None)), DestStep::Mount(ref u) if u == "U"));
    assert!(matches!(
        d.next(DestEvent::Mounted(Ok("/run/media/x".to_string()))),
        DestStep::CheckExists(ref p) if p == "/run/media/x/host"
    ));
    assert!(dest_finish(d.next(DestEvent::Exists(false))).is_err());

    let mut e = DestResolver::new("/mnt/b/host", &Some("U".to_string()));
    e.next(DestEvent::Begin);
    e.next(DestEvent::Exists(false));
    e.next(DestEvent::MountFound(None));
    assert!(matches!(e.next(DestEvent::Mounted(Ok("/run/media/x".to_string()))), DestStep::CreateDir(_)));
    assert!(matches!(e.next(DestEvent::Created(Ok(()))), DestStep::CheckExists(_)));
    assert_eq!(dest_finish(e.next(DestEvent::Exists(true))).unwrap(), "/mnt/b/host");

    let mut f = DestResolver::new("/mnt/b/host", &Some("U".to_string()));
    f.next(DestEvent::Begin);
    f.next(DestEvent::Exists(false));
    f.next(DestEvent::MountFound(None));
    assert_eq!(dest_finish(f.next(DestEvent::Mounted(Err("no".to_string())))).unwrap_err(), "auto-mounting UUID U: no");

    let mut g = DestResolver::new("/mnt/b/host", &Some("U".to_string()));
    g.next(DestEvent::Begin);
    g.next(DestEvent::Exists(false));
    g.next(DestEvent::MountFound(None));
    g.next(DestEvent::Mounted(Ok("/run/media/x".to_string())));
    assert_eq!(
        dest_finish(g.next(DestEvent::Created(Err("read-only".to_string())))).unwrap_err(),
        "creating dest dir after mount: read-only"
    );
}

#[test]
fn a_full_archives_the_operational_log() {
    let log = "[2024-01-01 02:00:00] Starting full backup → \"/b/full-S\"\n2024/01/01 02:00:01 [123] >f+++++++++ a.txt\n\n[2024-01-01 02:10:00] Completed full snapshot: full-S\r\n";
    assert_eq!(
        archived_log_text(log),
        "[2024-01-01 02:00:00] Starting full backup → \"/b/full-S\"\n[2024-01-01 02:10:00] Completed full snapshot: full-S\n"
    );
    assert_eq!(archived_log_text(""), "");
    assert_eq!(archived_log_path("/b/full-S"), "/b/full-S/.backup-tool/backup.log");
    let r = rotate_log(log, "/b/full-S");
    assert_eq!(r.archive_path, "/b/full-S/.backup-tool/backup.log");
    assert_eq!(r.archive_text, archived_log_text(log));
    assert_eq!(r.active_text, "");
}

#[test]
fn rsync_detail_stays_out_of_the_active_log() {
    assert_eq!(rsync_detail_log_in("/d"), "/d/rsync-detail.log.tmp");
    assert_ne!(rsync_detail_log_in("/d"), Config::log_path(&Some("/d".to_string())));
    let args = copy_rsync_args("/d", &None, "/home/u", "/b/.inprogress-full-S");
    assert!(args.contains(&"--log-file=/d/rsync-detail.log.tmp".to_string()));
    assert!(args.contains(&"--exclude-from=/d/excludes.tmp".to_string()));
    assert!(!args.contains(&"--log-file=/d/backup.log".to_string()));
}

#[test]
fn weekday_names_agree_with_chrono() {
    let mut d = chrono::NaiveDate::from_ymd_opt(-3000, 1, 1).unwrap();
    let end = chrono::NaiveDate::from_ymd_opt(3000, 1, 1).unwrap();
    while d < end {
        assert_eq!(weekday_name(d.num_days_from_ce()), d.format("%A").to_string(), "{d}");
        d = d + chrono::Duration::days(37);
    }
    assert_eq!(weekday_name(1), "Monday");
    assert_eq!(weekday_name(0), "Sunday");
    assert_eq!(weekday_name(i32::MIN), weekday_name(i32::MIN + 7));
}

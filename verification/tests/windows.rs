use backup_tool::config::Config;
use backup_tool::forms::{
    back_enabled, backup_time_text, default_dest, dest_on_drive, drive_info_text,
    incremental_period_shown, install_blocker, install_recap, lines_text, next_label,
    parse_excludes_text, paths_save_blocker, review_text, status_text, weekday_index, wizard_back, wizard_forward,
    wizard_page_name, InstallBlocker, WizardForward,
};
use backup_tool::run_lock::{acquire_wait_next, run_lock_path, run_lock_path_in, try_acquire_answer, LockWait, TryLockOutcome};

fn sample() -> Config {
    Config {
        source_dir: "/home/u".to_string(),
        dest_dir: "/mnt/b".to_string(),
        drive_uuid: Some("U-1".to_string()),
        drive_label: None,
        full_backup_day: "Friday".to_string(),
        backup_time: "03:15".to_string(),
        excludes: vec![".cache/".to_string(), "*.iso".to_string()],
        retention_days: 14,
        incremental_every_n_days: 2,
        keep_full_snapshots: 6,
        pending_full_backup: false,
        installed: true,
    }
}

#[test]
fn weekday_selector_matches_ignoring_case() {
    assert_eq!(weekday_index("Monday"), 0);
    assert_eq!(weekday_index("friday"), 4);
    assert_eq!(weekday_index("SUNDAY"), 6);
    assert_eq!(weekday_index("Neverday"), 0);
    assert_eq!(backup_time_text(2, 5), "02:05");
    assert_eq!(backup_time_text(23, 59), "23:59");
    assert_eq!(incremental_period_shown(0), 1);
    assert_eq!(incremental_period_shown(7), 7);
}

#[test]
fn exclude_editor_text_round_trips() {
    assert_eq!(
        parse_excludes_text(".cache/\n\n   \n*.iso\r\n  spaced  \n"),
        vec![".cache/".to_string(), "*.iso".to_string(), "  spaced  ".to_string()]
    );
    let v = vec![".cache/".to_string(), "*.iso".to_string()];
    assert_eq!(lines_text(&v), ".cache/\n*.iso");
    assert_eq!(parse_excludes_text(&lines_text(&v)), v);
    assert_eq!(lines_text(&vec![]), "");
}

#[test]
fn review_and_status_panels() {
    let c = sample();
    assert_eq!(
        review_text(&c),
        "Source directory  : /home/u\nBackup destination: /mnt/b\nDrive UUID        : U-1\nDrive label       : (none)\nFull backup day   : Friday\nDaily time        : 03:15\nIncrementals      : every 2 days\nRetention         : 14 days\nExcludes          : 2 patterns\n\nWhat will be installed:\n• ~/.config/systemd/user/backup-tool.service\n• ~/.config/systemd/user/backup-tool.timer  (OnCalendar=*-*-* 03:15)\n• ~/.local/share/applications/backup-tool.desktop\n• ~/.local/share/icons/hicolor/128x128/apps/backup-tool.png\n• ~/.config/backup-tool/config.toml"
    );
    let mut daily = sample();
    daily.incremental_every_n_days = 1;
    assert!(review_text(&daily).contains("Incrementals      : daily\n"));
    daily.incremental_every_n_days = 7;
    assert!(review_text(&daily).contains("Incrementals      : weekly\n"));
    assert_eq!(
        status_text(&c, true, "Next: a   Last: b"),
        "Source          : /home/u\nDestination     : /mnt/b\nDrive label     : (not set)\nFull backup day : Friday\nDaily time      : 03:15\nRetention       : 14 days\nTimer           : active ✅\nNext: a   Last: b"
    );
    assert!(status_text(&c, false, "x").contains("Timer           : inactive ⚠\nx"));
    assert_eq!(drive_info_text(&c), "Drive label: (not set)   UUID: U-1");
}

#[test]
fn destination_suggestions() {
    assert_eq!(default_dest("", "host"), "/mnt/home_backups/host");
    assert_eq!(default_dest("/x", "host"), "/x");
    assert_eq!(dest_on_drive("/run/media/u/B", "host"), "/run/media/u/B/home_backups/host");
}

#[test]
fn install_checks_and_recap() {
    assert_eq!(install_blocker("", true), Some(InstallBlocker::NoDestination));
    assert_eq!(install_blocker("/mnt/b", true), Some(InstallBlocker::SameFilesystem));
    assert_eq!(install_blocker("/mnt/b", false), None);
    assert_eq!(InstallBlocker::NoDestination.message(), "Backup destination path is empty.  Please choose a drive.");
    assert!(InstallBlocker::SameFilesystem.message().starts_with("The backup destination is on the same filesystem"));
    let c = sample();
    assert_eq!(
        install_recap("/c/config.toml", &Ok("  Wrote x".to_string()), &c),
        "Configuration saved to:\n  /c/config.toml\n\nInstalled:\n  Wrote x\n\nSchedule:\n• Full backup every Friday\n• Incremental every other day\n• Daily at 03:15\n• Incrementals kept for 14 days\n\nYou can now close this wizard.  The backup timer is active."
    );
    assert_eq!(
        install_recap("/c", &Err("boom".to_string()), &c),
        "⚠  Systemd setup encountered an error:\nboom\n\nConfig was saved.  You can re-run the install from Settings."
    );
}

#[test]
fn wizard_pages_in_order() {
    let names: Vec<&str> = (0..7).map(wizard_page_name).collect();
    assert_eq!(names, vec!["welcome", "source", "drive", "schedule", "excludes", "review", "done"]);
    assert_eq!(next_label(0), "Next");
    assert_eq!(next_label(4), "Review");
    assert_eq!(next_label(5), "Install");
    assert_eq!(next_label(6), "Open Manager");
    assert!(!back_enabled(0));
    assert!(back_enabled(1));
    assert!(back_enabled(5));
    assert!(!back_enabled(6));
    assert_eq!(wizard_forward(0), WizardForward::Advance(1));
    assert_eq!(wizard_forward(4), WizardForward::Advance(5));
    assert_eq!(wizard_forward(5), WizardForward::Install);
    assert_eq!(wizard_forward(6), WizardForward::Finish);
    assert_eq!(wizard_back(0), None);
    assert_eq!(wizard_back(3), Some(2));
}

#[test]
fn run_lock_waits_until_the_deadline() {
    assert_eq!(acquire_wait_next(true, 0, 10), LockWait::Acquired);
    assert_eq!(acquire_wait_next(false, 9, 10), LockWait::SleepThenRetry(5000));
    assert_eq!(acquire_wait_next(false, 10, 10), LockWait::GiveUp);
    assert_eq!(try_acquire_answer(TryLockOutcome::Locked), Ok(true));
    assert_eq!(try_acquire_answer(TryLockOutcome::WouldBlock), Ok(false));
    assert_eq!(try_acquire_answer(TryLockOutcome::Failed), Err(()));
    assert_eq!(run_lock_path_in("/d"), "/d/backup.run.lock");
    assert!(run_lock_path(&None).ends_with("backup-tool/backup.run.lock"));
}

#[test]
fn saved_schedule_time_reads_back() {
    for h in 0..=255u8 {
        for m in 0..=255u8 {
            let c = Config { backup_time: backup_time_text(h, m), ..Config::default() };
            assert_eq!(c.backup_hm(), (h, m));
        }
    }
}

#[test]
fn paths_tab_refuses_one_filesystem() {
    assert_eq!(
        paths_save_blocker(true).unwrap(),
        "❌  Source and destination are on the same filesystem.  Choose a different drive."
    );
    assert!(paths_save_blocker(false).is_none());
}

use backup_tool::systemd::{
    applications_dir, applications_dir_for, bookmarks_path, bookmarks_path_for, desktop_entry_text, disable,
    icon_dir_128, icon_dir_128_for, install_line, systemd_user_dir_for,
    install_log_text, service_unit_name, service_unit_text, systemctl_args, systemctl_failure,
    systemd_user_dir, timer_status_text, timer_unit_name, timer_unit_text, updated_bookmarks,
    InstallNote,
};

#[test]
fn service_unit_runs_an_automatic_backup() {
    assert_eq!(
        service_unit_text("/home/u/.local/share/backup-tool", "/usr/bin/backup-tool"),
        "[Unit]\nDescription=Home Directory Backup\nDocumentation=file:///home/u/.local/share/backup-tool/backup.log\nAfter=default.target\n\n[Service]\nType=oneshot\nExecStart=/usr/bin/backup-tool backup auto\nSyslogIdentifier=backup-tool\nStandardOutput=journal\nStandardError=journal\nTimeoutStartSec=infinity\nTimeoutStopSec=3600\n\n[Install]\nWantedBy=default.target\n"
    );
    assert_eq!(service_unit_name(), "backup-tool.service");
    assert_eq!(timer_unit_name(), "backup-tool.timer");
}

#[test]
fn timer_unit_pads_the_time() {
    assert_eq!(
        timer_unit_text(2, 5),
        "[Unit]\nDescription=Daily Backup-Tool Timer\n\n[Timer]\nOnCalendar=*-*-* 02:05:00\nAccuracySec=1min\nRandomizedDelaySec=300\nPersistent=true\n\n[Install]\nWantedBy=timers.target\n"
    );
    assert!(timer_unit_text(23, 59).contains("OnCalendar=*-*-* 23:59:00\n"));
    assert!(timer_unit_text(255, 100).contains("OnCalendar=*-*-* 255:100:00\n"));
}

#[test]
fn launcher_entry_starts_the_program() {
    let t = desktop_entry_text("/usr/bin/backup-tool");
    assert!(t.starts_with("[Desktop Entry]\nName=Backup-Tool\n"));
    assert!(t.contains("\nExec=/usr/bin/backup-tool\nIcon=backup-tool\n"));
    assert!(t.ends_with("StartupNotify=true\n"));
}

#[test]
fn systemctl_command_lines() {
    let args = vec!["enable".to_string(), "--now".to_string(), "backup-tool.timer".to_string()];
    assert_eq!(systemctl_args(&args), vec!["--user", "enable", "--now", "backup-tool.timer"]);
    assert_eq!(systemctl_failure(&args), "systemctl --user enable --now backup-tool.timer returned non-zero");
    assert_eq!(disable(), vec!["--user", "disable", "--now", "backup-tool.timer"]);
    assert_eq!(systemctl_args(&vec![]), vec!["--user"]);
}

#[test]
fn timer_status_line_from_list_timers() {
    let out = "Mon 2024-05-06 02:00:00 CEST 5h left Sun 2024-05-05 02:01:10 CEST 18h ago backup-tool.timer backup-tool.service\n";
    assert_eq!(timer_status_text(true, out), "Next: Mon   Last: 02:00:00");
    assert_eq!(timer_status_text(true, "a  b c"), "Next: a   Last: c");
    assert_eq!(timer_status_text(true, "only"), "Next: only   Last: —");
    assert_eq!(timer_status_text(true, "   \n"), "Next: —   Last: —");
    assert_eq!(timer_status_text(true, ""), "Timer is installed but has not run yet");
    assert_eq!(timer_status_text(false, out), "Timer status unavailable");
}

#[test]
fn bookmarks_drop_old_entries_and_add_the_destination() {
    let existing = "file:///home/u/Music Music\nfile:///mnt/home_backups/old Home Backups\nfile:///x/backup-tool y\nfile:///docs";
    assert_eq!(
        updated_bookmarks(existing, "/mnt/home_backups/host"),
        "file:///home/u/Music Music\nfile:///docs\nfile:///mnt/home_backups/host Home Backups\n"
    );
    assert_eq!(updated_bookmarks("", "/d"), "file:///d Home Backups\n");
    assert_eq!(updated_bookmarks("a\n\n", "/d"), "a\nfile:///d Home Backups\n");
    // Re-installing with the same destination leaves one bookmark for it.
    let once = updated_bookmarks(existing, "/mnt/home_backups/host");
    assert_eq!(updated_bookmarks(&once, "/mnt/home_backups/host"), once);
}

#[test]
fn reinstalling_to_a_plain_destination_keeps_one_bookmark() {
    let first = updated_bookmarks("file:///docs\n", "/mnt/usb/snapshots");
    assert_eq!(first, "file:///docs\nfile:///mnt/usb/snapshots Home Backups\n");
    assert_eq!(updated_bookmarks(&first, "/mnt/usb/snapshots"), first);
    // A bookmark for another plain destination is the user's own and stays.
    assert_eq!(
        updated_bookmarks(&first, "/mnt/other"),
        "file:///docs\nfile:///mnt/usb/snapshots Home Backups\nfile:///mnt/other Home Backups\n"
    );
}

#[test]
fn install_log_lines() {
    let log = vec![
        install_line(InstallNote::Wrote, "/u/backup-tool.service"),
        install_line(InstallNote::Reloaded, ""),
        install_line(InstallNote::Enabled, "ignored"),
        install_line(InstallNote::IconMissing, ""),
        install_line(InstallNote::LauncherInstalled, "/a/backup-tool.desktop"),
        install_line(InstallNote::BookmarkSkipped, "no config dir"),
    ];
    assert_eq!(
        install_log_text(&log),
        "  Wrote /u/backup-tool.service\n  systemctl --user daemon-reload\n  Enabled and started backup-tool.timer\n  ⚠  Icon asset not found next to binary — skipping icon install\n  Installed launcher → /a/backup-tool.desktop\n  ⚠  Nautilus bookmark skipped: no config dir"
    );
    assert_eq!(install_line(InstallNote::IconInstalled, "/i.png"), "  Installed icon → /i.png");
    assert_eq!(install_line(InstallNote::BookmarkUpdated, "/d"), "  Updated Nautilus bookmark → /d");
}

#[test]
fn install_places_follow_the_platform_directories() {
    assert!(systemd_user_dir().ends_with("systemd/user"));
    assert!(applications_dir().ends_with("applications"));
    assert!(icon_dir_128().ends_with("icons/hicolor/128x128/apps"));
    if let Some(p) = bookmarks_path() {
        assert!(p.ends_with("gtk-3.0/bookmarks"));
    }
}

#[test]
fn desktop_paths_for_each_directory() {
    assert_eq!(systemd_user_dir_for(&Some("/c".to_string())), "/c/systemd/user");
    assert_eq!(systemd_user_dir_for(&None), ".config/systemd/user");
    assert_eq!(applications_dir_for(&Some("/l".to_string())), "/l/applications");
    assert_eq!(applications_dir_for(&None), ".local/share/applications");
    assert_eq!(icon_dir_128_for(&Some("/l".to_string())), "/l/icons/hicolor/128x128/apps");
    assert_eq!(icon_dir_128_for(&None), ".local/share/icons/hicolor/128x128/apps");
    assert_eq!(bookmarks_path_for(&Some("/c".to_string())), Some("/c/gtk-3.0/bookmarks".to_string()));
    assert_eq!(bookmarks_path_for(&None), None);
}

#[test]
fn reinstalling_keeps_blank_lines_and_one_bookmark() {
    let once = updated_bookmarks("a\n\nb\r\n\n", "/mnt/usb");
    assert_eq!(once, "a\n\nb\nfile:///mnt/usb Home Backups\n");
    assert_eq!(updated_bookmarks(&once, "/mnt/usb"), once);
}

use backup_tool::year_end::{
    build_dialog_body, classify_year_snapshot, dialog_title, prior_year_usage_from,
    should_show_year_end_reminder, snapshot_year_from_name, CalendarDate, PriorYearUsage,
    YearEndReminderState, YearSnapshotKind, YearSnapshotSummary,
};
use backup_tool::clock::{log_timestamp, snapshot_stamp, LocalTime};
use chrono::NaiveDate;

fn date(y: i32, m: u32, d: u32) -> CalendarDate {
    CalendarDate::from_ymd_opt(y, m, d).unwrap()
}

#[test]
fn should_show_only_in_january_before_dismiss() {
    let state = YearEndReminderState::default();
    assert_eq!(state.should_show_today(&date(2026, 1, 2)), Some(2025));
    assert!(state.should_show_today(&date(2026, 2, 1)).is_none());
}

#[test]
fn dismiss_stops_prompt_for_that_archive_year() {
    let mut state = YearEndReminderState::default();
    state.mark_dismissed(2025);
    assert!(state.should_show_today(&date(2026, 1, 5)).is_none());
}

#[test]
fn remind_once_per_day() {
    let mut state = YearEndReminderState::default();
    let day = date(2026, 1, 3);
    assert_eq!(state.should_show_today(&day), Some(2025));
    state.mark_remind_today(&day);
    assert!(state.should_show_today(&day).is_none());
    assert_eq!(state.should_show_today(&date(2026, 1, 4)), Some(2025));
}

#[test]
fn snapshot_year_from_name_parses_prefixes() {
    assert_eq!(snapshot_year_from_name("full-2025-06-01_020000"), Some(2025));
    assert_eq!(snapshot_year_from_name("inc-2024-12-31_235959"), Some(2024));
    assert_eq!(snapshot_year_from_name("latest"), None);
}

#[test]
fn snapshot_year_needs_four_readable_bytes() {
    assert_eq!(snapshot_year_from_name("inc-20"), None);
    assert_eq!(snapshot_year_from_name("x-+123"), Some(123));
    assert_eq!(snapshot_year_from_name("x--123"), Some(-123));
    assert_eq!(snapshot_year_from_name("x-é999"), None);
    assert_eq!(snapshot_year_from_name("-2025"), Some(2025));
}

#[test]
fn calendar_dates_are_checked() {
    assert!(CalendarDate::from_ymd_opt(2024, 2, 29).is_some());
    assert!(CalendarDate::from_ymd_opt(2025, 2, 29).is_none());
    assert!(CalendarDate::from_ymd_opt(1900, 2, 29).is_none());
    assert!(CalendarDate::from_ymd_opt(2000, 2, 29).is_some());
    assert!(CalendarDate::from_ymd_opt(2025, 13, 1).is_none());
    assert!(CalendarDate::from_ymd_opt(2025, 4, 31).is_none());
    assert_eq!(date(2026, 1, 3).iso_string(), "2026-01-03");
    assert_eq!(date(7, 12, 25).iso_string(), "0007-12-25");
}

#[test]
fn dismissed_reminder_clears_the_snooze() {
    let mut state = YearEndReminderState::default();
    state.mark_remind_today(&date(2026, 1, 3));
    state.mark_dismissed(2025);
    assert_eq!(state.dismissed_archive_year, Some(2025));
    assert!(state.last_reminded_date.is_none());
    // A year later the next archive year is due again.
    assert_eq!(state.should_show_today(&date(2027, 1, 3)), Some(2026));
}

#[test]
fn forced_reminder_ignores_the_state() {
    let mut state = YearEndReminderState::default();
    state.mark_dismissed(2025);
    assert_eq!(should_show_year_end_reminder(true, &state, &date(2026, 7, 1)), Some(2025));
    assert_eq!(should_show_year_end_reminder(false, &state, &date(2026, 1, 1)), None);
    assert_eq!(should_show_year_end_reminder(true, &state, &date(0, 1, 1)), None);
}

#[test]
fn year_snapshots_are_classified_by_prefix_and_year() {
    assert_eq!(classify_year_snapshot("full-2025-06-01_020000", true, 2025), Some(YearSnapshotKind::Full));
    assert_eq!(classify_year_snapshot("inc-2025-06-02_020000", true, 2025), Some(YearSnapshotKind::Incremental));
    assert_eq!(classify_year_snapshot("inc-2025-06-02_020000", false, 2025), None);
    assert_eq!(classify_year_snapshot("inc-2024-06-02_020000", true, 2025), None);
    assert_eq!(classify_year_snapshot(".inprogress-2025-06", true, 2025), None);
}

#[test]
fn year_summary_counts_and_saturates() {
    let mut s = YearSnapshotSummary::new();
    s.add(YearSnapshotKind::Full, 10);
    s.add(YearSnapshotKind::Incremental, u64::MAX);
    assert_eq!(s.full_count, 1);
    assert_eq!(s.inc_count, 1);
    assert_eq!(s.bytes, u64::MAX);
}

#[test]
fn dialog_body_with_and_without_drive() {
    let mut s = YearSnapshotSummary::new();
    s.add(YearSnapshotKind::Full, 2 * 1024 * 1024 * 1024);
    s.add(YearSnapshotKind::Incremental, 512 * 1024 * 1024);
    let u: PriorYearUsage = prior_year_usage_from(2025, Some((1024 * 1024 * 1024, 4 * 1024 * 1024 * 1024)), Some(s));
    assert_eq!(
        build_dialog_body("/mnt/b", &u),
        "It is January — time to review last year's backups.\n\n\
         2025 backups on disk: 1 full and 1 incremental snapshots, about 2.5 GiB total.\n\
         Backup drive space: 1.0 GiB free of 4.0 GiB total.\n\n\
         Consider archiving 2025 snapshots to cold storage or moving backups to a new disk before continuing this year."
    );
    let none = prior_year_usage_from(2025, None, None);
    assert_eq!(
        build_dialog_body("/mnt/b", &none),
        "It is January — time to review last year's backups.\n\n\
         No full or incremental snapshots from 2025 were found under:\n  /mnt/b\n\
         Backup destination is not reachable right now:\n  /mnt/b\n\
         Plug in the backup drive to review space usage.\n\n\
         Consider archiving 2025 snapshots to cold storage or moving backups to a new disk before continuing this year."
    );
    assert_eq!(dialog_title(2025), "Archive 2025 backups?");
}

#[test]
fn reminder_state_lives_in_the_data_dir() {
    assert!(YearEndReminderState::state_path(&None).ends_with("backup-tool/year-end-reminder.toml"));
}

#[test]
fn calendar_dates_agree_with_chrono() {
    let years: [i32; 14] = [-262144, -262143, -10000, -1, 0, 7, 1900, 2000, 2024, 2025, 9999, 10000, 262142, 262143];
    for &y in &years {
        for m in 0..=13u32 {
            for d in [0u32, 1, 28, 29, 30, 31, 32] {
                let ours = CalendarDate::from_ymd_opt(y, m, d);
                let theirs = NaiveDate::from_ymd_opt(y, m, d);
                assert_eq!(ours.is_some(), theirs.is_some(), "{y}-{m}-{d}");
                if let (Some(a), Some(b)) = (ours, theirs) {
                    assert_eq!(a.iso_string(), b.format("%Y-%m-%d").to_string());
                }
            }
        }
    }
}

#[test]
fn clock_stamps_agree_with_chrono() {
    for (y, mo, d, h, mi, se) in [(2024, 1, 2, 3, 4, 5), (1999, 12, 31, 23, 59, 59), (5, 6, 7, 0, 0, 0)] {
        let t = LocalTime { date: date(y, mo, d), hour: h, minute: mi, second: se };
        let c = NaiveDate::from_ymd_opt(y, mo, d).unwrap().and_hms_opt(h, mi, se).unwrap();
        assert_eq!(log_timestamp(&t), c.format("%Y-%m-%d %H:%M:%S").to_string());
        assert_eq!(snapshot_stamp(&t), c.format("%Y-%m-%d_%H%M%S").to_string());
    }
}

use backup_tool::config::{
    config_source, default_one, default_zero, preserve_pending_full_backup, Config, ConfigMissing, ConfigSource,
};

#[test]
fn backup_hm_parses_hh_mm() {
    let cfg = Config {
        backup_time: "02:30".to_string(),
        ..Config::default()
    };
    assert_eq!(cfg.backup_hm(), (2, 30));
}

#[test]
fn backup_hm_parses_midnight() {
    let cfg = Config {
        backup_time: "00:00".to_string(),
        ..Config::default()
    };
    assert_eq!(cfg.backup_hm(), (0, 0));
}

#[test]
fn backup_hm_parses_end_of_day() {
    let cfg = Config {
        backup_time: "23:59".to_string(),
        ..Config::default()
    };
    assert_eq!(cfg.backup_hm(), (23, 59));
}

#[test]
fn backup_hm_fallback_on_invalid_string() {
    let cfg = Config {
        backup_time: "not-a-time".to_string(),
        ..Config::default()
    };
    assert_eq!(cfg.backup_hm(), (2, 0));
}

#[test]
fn backup_hm_fallback_on_empty_string() {
    let cfg = Config {
        backup_time: String::new(),
        ..Config::default()
    };
    assert_eq!(cfg.backup_hm(), (2, 0));
}

#[test]
fn backup_hm_falls_back_as_a_whole() {
    let with = |t: &str| Config { backup_time: t.to_string(), ..Config::default() }.backup_hm();
    assert_eq!(with("7"), (2, 0));
    assert_eq!(with("xx:45"), (2, 0));
    assert_eq!(with("ab:15"), (2, 0));
    assert_eq!(with("07:xx"), (2, 0));
    assert_eq!(with("300:10"), (2, 0));
    assert_eq!(with("+5:+6"), (5, 6));
    assert_eq!(with("5:6:7"), (2, 0));
    assert_eq!(with("255:255"), (255, 255));
}

#[test]
fn default_one_returns_one() {
    assert_eq!(default_one(), 1);
}

#[test]
fn default_zero_returns_zero() {
    assert_eq!(default_zero(), 0);
}

#[test]
fn preserve_pending_full_backup_keeps_disk_retry() {
    assert!(preserve_pending_full_backup(false, true));
    assert!(!preserve_pending_full_backup(false, false));
    assert!(preserve_pending_full_backup(true, false));
}

#[test]
fn defaults_follow_the_wizard() {
    let c = Config::default_for_home(Some("/home/ann".to_string()));
    assert_eq!(c.source_dir, "/home/ann");
    assert_eq!(c.dest_dir, "");
    assert_eq!(c.full_backup_day, "Monday");
    assert_eq!(c.backup_time, "02:00");
    assert_eq!(c.retention_days, 30);
    assert_eq!(c.incremental_every_n_days, 1);
    assert_eq!(c.keep_full_snapshots, 12);
    assert!(!c.pending_full_backup);
    assert!(!c.installed);
    assert_eq!(c.excludes.len(), 14);
    assert_eq!(c.excludes[0], ".cache/");
    assert_eq!(c.excludes[13], "*~");
    let none = Config::default_for_home(None);
    assert_eq!(none.source_dir, "/home/user");
}

#[test]
fn keep_full_label_shows_unlimited_for_zero() {
    let mut c = Config::default_for_home(None);
    c.keep_full_snapshots = 0;
    assert_eq!(c.keep_full_snapshots_label(), "unlimited");
    c.keep_full_snapshots = 12;
    assert_eq!(c.keep_full_snapshots_label(), "12");
}

#[test]
fn saving_keeps_a_pending_full_from_disk() {
    let c = Config::default_for_home(None);
    assert!(c.to_save(Some(true)).pending_full_backup);
    assert!(!c.to_save(Some(false)).pending_full_backup);
    assert!(!c.to_save(None).pending_full_backup);
    let mut p = Config::default_for_home(None);
    p.pending_full_backup = true;
    assert!(p.to_save(Some(false)).pending_full_backup);
}

#[test]
fn an_explicit_clear_reaches_the_disk() {
    let mut on_disk = Config::default_for_home(None);
    on_disk.pending_full_backup = true;
    match Config::set_pending_full_backup(Some(on_disk), false) {
        Ok(Some(n)) => {
            assert!(!n.to_save_with(Some(true), true).pending_full_backup);
            assert!(n.to_save_with(Some(true), false).pending_full_backup);
        }
        _ => panic!("expected a config to save"),
    }
}

#[test]
fn set_pending_needs_a_loaded_config() {
    assert!(matches!(Config::set_pending_full_backup(None, true), Err(ConfigMissing)));
    let c = Config::default_for_home(None);
    assert!(matches!(Config::set_pending_full_backup(Some(c), false), Ok(None)));
    let c = Config::default_for_home(None);
    match Config::set_pending_full_backup(Some(c), true) {
        Ok(Some(n)) => {
            assert!(n.pending_full_backup);
            assert_eq!(n.backup_time, "02:00");
        }
        _ => panic!("expected a config to save"),
    }
}

#[test]
fn tool_paths_end_in_the_tool_directories() {
    assert!(Config::config_path().ends_with("backup-tool/config.toml"));
    assert!(Config::legacy_config_path().ends_with("home-backup/config.toml"));
    assert!(Config::data_dir(&None).ends_with("backup-tool"));
    assert!(Config::log_path(&None).ends_with("backup-tool/backup.log"));
}

#[test]
fn the_data_dir_override_moves_every_state_file() {
    let o = Some("/tmp/bt-data".to_string());
    assert_eq!(Config::data_dir(&o), "/tmp/bt-data");
    assert_eq!(Config::log_path(&o), "/tmp/bt-data/backup.log");
}

#[test]
fn config_paths_for_each_directory() {
    assert_eq!(Config::config_path_for(&Some("/c".to_string())), "/c/backup-tool/config.toml");
    assert_eq!(Config::config_path_for(&None), ".config/backup-tool/config.toml");
    assert_eq!(Config::legacy_config_path_for(&Some("/c/".to_string())), "/c/home-backup/config.toml");
    assert_eq!(Config::legacy_config_path_for(&None), ".config/home-backup/config.toml");
    assert_eq!(Config::data_dir_for(&None, &Some("/l".to_string())), "/l/backup-tool");
    assert_eq!(Config::data_dir_for(&None, &None), ".local/share/backup-tool");
    assert_eq!(Config::data_dir_for(&Some("/o".to_string()), &Some("/l".to_string())), "/o");
}

#[test]
fn the_current_config_file_wins() {
    assert_eq!(config_source(true, true), Some(ConfigSource::Current));
    assert_eq!(config_source(true, false), Some(ConfigSource::Current));
    assert_eq!(config_source(false, true), Some(ConfigSource::Legacy));
    assert_eq!(config_source(false, false), None);
}

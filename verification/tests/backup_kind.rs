use backup_tool::backup::{BackupKind, UnknownBackupKind};

#[test]
fn backup_kind_parses_full() {
    for s in &["full", "Full", "FULL"] {
        assert_eq!(s.parse::<BackupKind>().unwrap(), BackupKind::Full);
    }
}

#[test]
fn backup_kind_parses_incremental() {
    for s in &["incremental", "Incremental", "inc", "INC"] {
        assert_eq!(s.parse::<BackupKind>().unwrap(), BackupKind::Incremental);
    }
}

#[test]
fn backup_kind_parses_auto() {
    for s in &["auto", "Auto", "AUTO"] {
        assert_eq!(s.parse::<BackupKind>().unwrap(), BackupKind::Auto);
    }
}

#[test]
fn backup_kind_rejects_unknown_values() {
    for s in &["bad", "", "manual", "skip", "differential"] {
        assert!(s.parse::<BackupKind>().is_err(), "should reject '{s}'");
    }
}

#[test]
fn unknown_kind_message_names_the_word_in_lower_case() {
    let e: UnknownBackupKind = "MaNuAl".parse::<BackupKind>().unwrap_err();
    assert_eq!(e.given, "manual");
    assert_eq!(
        e.message(),
        "unknown backup kind 'manual'; use full, incremental, or auto"
    );
}

#[test]
fn parse_is_ascii_case_insensitive_only() {
    // A non-ASCII look-alike is not folded.
    assert!("ＦＵＬＬ".parse::<BackupKind>().is_err());
    assert_eq!(BackupKind::parse("iNc").unwrap(), BackupKind::Incremental);
    assert!(BackupKind::parse(" full").is_err());
}

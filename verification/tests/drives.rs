use backup_tool::drives::{
    add_freed, available_bytes, collect_drives, empty_volume_trash, drives_from_lsblk, du_output_bytes,
    filesystem_bytes, findmnt_mountpoint, is_removable, label_from_lsblk,
    mountpoint_from_udisksctl, same_device, sort_drives, system_mount, trash_dirs, trash_parts,
    trimmed_output, uid_from_output, usable_fs, AncestorSearch, AncestorStep, DfError, DriveInfo,
    DuError, LsblkDevice, RemovableFlag, SweepEvent, SweepStep,
};

fn drive(name: &str, mounted: bool, removable: bool) -> DriveInfo {
    DriveInfo {
        name: name.to_string(),
        label: None,
        size: "1G".to_string(),
        mountpoint: if mounted { Some(format!("/m/{name}")) } else { None },
        fstype: Some("ext4".to_string()),
        uuid: None,
        removable,
    }
}

#[test]
fn drive_texts() {
    let mut d = drive("sdb1", true, true);
    d.label = Some("Backup".to_string());
    assert_eq!(d.device_path(), "/dev/sdb1");
    assert_eq!(d.display_label(), "Backup — /dev/sdb1 — 1G — mounted at /m/sdb1 ⚡");
    assert!(d.is_mounted());
    let e = drive("sdc1", false, false);
    assert_eq!(e.display_label(), "(no label) — /dev/sdc1 — 1G — not mounted");
    assert!(!e.is_mounted());
}

fn part(name: &str, fs: Option<&str>, mp: Option<&str>, rm: RemovableFlag) -> LsblkDevice {
    LsblkDevice {
        name: name.to_string(),
        label: None,
        size: Some("10G".to_string()),
        mountpoint: mp.map(|s| s.to_string()),
        kind: Some("part".to_string()),
        fstype: fs.map(|s| s.to_string()),
        removable: rm,
        uuid: Some(format!("uuid-{name}")),
        children: None,
    }
}

fn disk(name: &str, rm: RemovableFlag, children: Vec<LsblkDevice>) -> LsblkDevice {
    LsblkDevice {
        name: name.to_string(),
        label: None,
        size: None,
        mountpoint: None,
        kind: Some("disk".to_string()),
        fstype: None,
        removable: rm,
        uuid: None,
        children: Some(children),
    }
}

#[test]
fn lsblk_tree_keeps_usable_partitions() {
    let devices = vec![
        disk("sda", RemovableFlag::Bool(false), vec![
            part("sda1", Some("vfat"), Some("/boot/efi"), RemovableFlag::Other),
            part("sda2", Some("ext4"), Some("/"), RemovableFlag::Other),
            part("sda3", Some("swap"), Some("[SWAP]"), RemovableFlag::Other),
            part("sda4", Some("xfs"), None, RemovableFlag::Number(Some(0))),
        ]),
        disk("sdb", RemovableFlag::Text("1".to_string()), vec![
            part("sdb1", Some("exfat"), Some("/run/media/u/B"), RemovableFlag::Other),
            part("sdb2", Some("zfs"), None, RemovableFlag::Other),
            part("sdb3", None, None, RemovableFlag::Other),
        ]),
    ];
    let found = collect_drives(&devices);
    let names: Vec<&str> = found.iter().map(|d| d.name.as_str()).collect();
    assert_eq!(names, vec!["sda4", "sdb1"]);
    assert!(!found[0].removable);
    assert!(found[1].removable);
    assert_eq!(found[0].size, "10G");
    let sorted = drives_from_lsblk(&devices);
    let names: Vec<&str> = sorted.iter().map(|d| d.name.as_str()).collect();
    assert_eq!(names, vec!["sdb1", "sda4"]);
}

#[test]
fn removable_flag_forms() {
    assert!(is_removable(&RemovableFlag::Bool(true)));
    assert!(!is_removable(&RemovableFlag::Bool(false)));
    assert!(is_removable(&RemovableFlag::Number(Some(2))));
    assert!(!is_removable(&RemovableFlag::Number(None)));
    assert!(is_removable(&RemovableFlag::Text("TRUE".to_string())));
    assert!(!is_removable(&RemovableFlag::Text("yes".to_string())));
    assert!(!is_removable(&RemovableFlag::Other));
    assert!(usable_fs("btrfs"));
    assert!(!usable_fs("Btrfs"));
    assert!(system_mount("/home"));
    assert!(!system_mount("/home/u"));
}

#[test]
fn drives_sort_mounted_then_removable_then_name_stably() {
    let v = vec![
        drive("sdc1", false, false),
        drive("sdb1", true, false),
        drive("sdd1", false, true),
        drive("sda1", true, true),
        drive("sdb1", false, false),
    ];
    let sorted = sort_drives(v);
    let keys: Vec<(String, bool, bool)> =
        sorted.iter().map(|d| (d.name.clone(), d.mountpoint.is_some(), d.removable)).collect();
    assert_eq!(
        keys,
        vec![
            ("sda1".to_string(), true, true),
            ("sdb1".to_string(), true, false),
            ("sdd1".to_string(), false, true),
            ("sdb1".to_string(), false, false),
            ("sdc1".to_string(), false, false),
        ]
    );
}

#[test]
fn df_output_is_read_from_its_second_line() {
    let out = "   Avail     Size\n 1000  5000\n";
    assert_eq!(filesystem_bytes(out), Ok((1000, 5000)));
    assert_eq!(available_bytes(out), Ok(1000));
    assert_eq!(filesystem_bytes("Avail Size\n"), Err(DfError::MissingLine));
    assert_eq!(filesystem_bytes("h\n12\n"), Err(DfError::TooFewFields));
    assert_eq!(filesystem_bytes("h\nx 12\n"), Err(DfError::BadAvail("x".to_string())));
    assert_eq!(filesystem_bytes("h\n12 -1\n"), Err(DfError::BadSize("-1".to_string())));
    assert_eq!(DfError::BadAvail("x".to_string()).message(), "parsing df avail bytes 'x'");
    assert_eq!(DfError::MissingLine.message(), "parsing df output");
}

#[test]
fn du_output_is_its_first_field() {
    assert_eq!(du_output_bytes("4096\t/mnt/x\n"), Ok(4096));
    assert_eq!(du_output_bytes("  \n"), Err(DuError::MissingField));
    assert_eq!(du_output_bytes("4k\t/x"), Err(DuError::BadNumber("4k".to_string())));
    assert_eq!(DuError::BadNumber("4k".to_string()).message(), "parsing du bytes '4k'");
    assert_eq!(du_output_bytes("18446744073709551616 x"), Err(DuError::BadNumber("18446744073709551616".to_string())));
}

#[test]
fn small_tool_outputs() {
    assert_eq!(uid_from_output("1000\n"), Some(1000));
    assert_eq!(uid_from_output("root"), None);
    assert_eq!(trimmed_output("  /dev/sdb1 \n"), Some("/dev/sdb1".to_string()));
    assert_eq!(trimmed_output("\n"), None);
    assert_eq!(label_from_lsblk("Backup\n"), Some("Backup".to_string()));
    assert_eq!(label_from_lsblk("-\n"), None);
    assert_eq!(label_from_lsblk("(null)"), None);
    assert_eq!(
        mountpoint_from_udisksctl("Mounted /dev/sdb1 at /run/media/u/B.\n"),
        Some("/run/media/u/B".to_string())
    );
    assert_eq!(mountpoint_from_udisksctl("nothing here"), None);
    assert_eq!(findmnt_mountpoint("/mnt\n", "/mnt/x"), Ok("/mnt".to_string()));
    assert_eq!(findmnt_mountpoint("", "/mnt/x"), Err("findmnt returned no mountpoint for /mnt/x".to_string()));
}

#[test]
fn trash_locations_and_freed_bytes() {
    assert_eq!(trash_dirs("/mnt", 1000), vec!["/mnt/.Trash-1000".to_string(), "/mnt/.Trash/1000".to_string()]);
    assert_eq!(trash_parts("/mnt/.Trash-1000"), vec!["/mnt/.Trash-1000/files".to_string(), "/mnt/.Trash-1000/expunged".to_string()]);
    assert_eq!(add_freed(10, Some(5)), 15);
    assert_eq!(add_freed(10, None), 10);
}

#[test]
fn nearest_existing_ancestor_walks_up() {
    let (mut s, first) = AncestorSearch::new("/a/b/c");
    assert_eq!(first, AncestorStep::Check("/a/b/c".to_string()));
    assert_eq!(s.next(false), AncestorStep::Check("/a/b".to_string()));
    assert_eq!(s.next(false), AncestorStep::Check("/a".to_string()));
    assert_eq!(s.next(true), AncestorStep::Found("/a".to_string()));

    let (mut r, _) = AncestorSearch::new("rel");
    assert_eq!(r.next(false), AncestorStep::Check(String::new()));
    assert_eq!(r.next(false), AncestorStep::NoAncestor("no existing ancestor for rel".to_string()));
}

#[test]
fn emptying_the_trash_measures_then_clears_each_part() {
    let (mut s, first) = empty_volume_trash("/mnt", 1000);
    assert_eq!(first, SweepStep::CheckDir("/mnt/.Trash-1000".to_string()));
    assert_eq!(s.next(SweepEvent::IsDir(true)), SweepStep::CheckDir("/mnt/.Trash-1000/files".to_string()));
    assert_eq!(s.next(SweepEvent::IsDir(true)), SweepStep::Measure("/mnt/.Trash-1000/files".to_string()));
    assert_eq!(s.next(SweepEvent::Measured(Some(4096))), SweepStep::Clear("/mnt/.Trash-1000/files".to_string()));
    assert_eq!(s.next(SweepEvent::Cleared), SweepStep::CheckDir("/mnt/.Trash-1000/expunged".to_string()));
    assert_eq!(s.next(SweepEvent::IsDir(true)), SweepStep::Measure("/mnt/.Trash-1000/expunged".to_string()));
    assert_eq!(s.next(SweepEvent::Measured(None)), SweepStep::Clear("/mnt/.Trash-1000/expunged".to_string()));
    assert_eq!(s.next(SweepEvent::Cleared), SweepStep::CheckDir("/mnt/.Trash/1000".to_string()));
    assert_eq!(s.next(SweepEvent::IsDir(false)), SweepStep::Finish(4096));
}

#[test]
fn emptying_the_trash_skips_missing_parts() {
    let (mut s, _) = empty_volume_trash("/v/", 7);
    assert_eq!(s.next(SweepEvent::IsDir(false)), SweepStep::CheckDir("/v/.Trash/7".to_string()));
    assert_eq!(s.next(SweepEvent::IsDir(true)), SweepStep::CheckDir("/v/.Trash/7/files".to_string()));
    assert_eq!(s.next(SweepEvent::IsDir(false)), SweepStep::CheckDir("/v/.Trash/7/expunged".to_string()));
    assert_eq!(s.next(SweepEvent::IsDir(false)), SweepStep::Finish(0));
}

#[test]
fn same_device_needs_both_ids() {
    assert!(same_device(Some(2049), Some(2049)));
    assert!(!same_device(Some(2049), Some(2050)));
    assert!(!same_device(None, Some(2049)));
    assert!(!same_device(Some(2049), None));
    assert!(!same_device(None, None));
}

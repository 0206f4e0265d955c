use backup_tool::size::{format_bytes, full_backup_bytes_needed};

#[test]
fn format_bytes_sub_kib() {
    assert_eq!(format_bytes(0), "0 B");
    assert_eq!(format_bytes(1), "1 B");
    assert_eq!(format_bytes(1023), "1023 B");
}

#[test]
fn format_bytes_kib() {
    assert_eq!(format_bytes(1024), "1.0 KiB");
    assert_eq!(format_bytes(1536), "1.5 KiB");
    assert_eq!(format_bytes(1024 * 1024 - 1), "1024.0 KiB");
}

#[test]
fn format_bytes_mib() {
    assert_eq!(format_bytes(1024 * 1024), "1.0 MiB");
    assert_eq!(format_bytes(10 * 1024 * 1024), "10.0 MiB");
}

#[test]
fn format_bytes_gib() {
    assert_eq!(format_bytes(1024 * 1024 * 1024), "1.0 GiB");
    assert_eq!(format_bytes(100 * 1024 * 1024 * 1024), "100.0 GiB");
}

/// The same text as the floating-point formatting it stands for.
fn float_text(n: u64) -> String {
    const GIB: f64 = 1024.0 * 1024.0 * 1024.0;
    const MIB: f64 = 1024.0 * 1024.0;
    const KIB: f64 = 1024.0;
    let n = n as f64;
    if n >= GIB {
        format!("{:.1} GiB", n / GIB)
    } else if n >= MIB {
        format!("{:.1} MiB", n / MIB)
    } else if n >= KIB {
        format!("{:.1} KiB", n / KIB)
    } else {
        format!("{n:.0} B")
    }
}

#[test]
fn format_bytes_agrees_with_float_formatting() {
    let mut samples: Vec<u64> = vec![
        0, 1, 9, 10, 99, 1000, 1023, 1024, 1075, 1076, 1126, 1127, 1280, 1331, 1332, 1536,
        2047, 2048, 10_000, 1_048_575, 1_048_576, 1_101_004, 1_101_005, 5_505_024,
        1_073_741_823, 1_073_741_824, 1_181_116_006, 1_127_428_915, 123_456_789_012,
        (1u64 << 53) - 1, 1u64 << 53, (1u64 << 53) + 1, (1u64 << 53) + 3, (1u64 << 60) + 12345,
        u64::MAX - 1, u64::MAX,
    ];
    let mut x: u64 = 0x9E37_79B9_7F4A_7C15;
    for _ in 0..2000 {
        x ^= x << 13;
        x ^= x >> 7;
        x ^= x << 17;
        samples.push(x >> (x % 64));
    }
    for n in samples {
        assert_eq!(format_bytes(n), float_text(n), "n = {n}");
    }
}

#[test]
fn format_bytes_ties_round_to_even() {
    // 1.25 KiB and 1.75 KiB are exact binary halves of a tenth.
    assert_eq!(format_bytes(1280), "1.2 KiB");
    assert_eq!(format_bytes(1792), "1.8 KiB");
}

#[test]
fn full_backup_needs_one_gib_without_a_snapshot() {
    assert_eq!(full_backup_bytes_needed(None), 1024 * 1024 * 1024);
}

#[test]
fn full_backup_margin_agrees_with_float_arithmetic() {
    let mut samples: Vec<u64> = vec![
        0, 1, 2, 9, 10, 11, 100, 1000, 4096, 1_000_000, 123_456_789, 1 << 40,
        (1u64 << 53) - 1, 1u64 << 53, (1u64 << 53) + 1, 1 << 60, u64::MAX / 2, u64::MAX - 1, u64::MAX,
    ];
    let mut x: u64 = 0x1234_5678_9ABC_DEF1;
    for _ in 0..2000 {
        x ^= x << 13;
        x ^= x >> 7;
        x ^= x << 17;
        samples.push(x >> (x % 64));
    }
    for b in samples {
        let expected = (b as f64 * 1.10).ceil() as u64;
        assert_eq!(full_backup_bytes_needed(Some(b)), expected, "b = {b}");
        assert!(full_backup_bytes_needed(Some(b)) >= b);
    }
}

#[test]
fn full_backup_margin_is_ten_percent() {
    assert_eq!(full_backup_bytes_needed(Some(100)), 111);
    assert_eq!(full_backup_bytes_needed(Some(1000)), 1100);
    assert_eq!(full_backup_bytes_needed(Some(0)), 0);
}

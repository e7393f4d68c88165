use std::time::{Duration, SystemTime, UNIX_EPOCH};

use pleiades_explorer::fs_entry::{
    epoch_seconds, format_modified, format_size, icon_for, icon_for_extension, modified_timestamp,
    sort_entries, timestamp_text, FsEntry,
};

fn entry(name: &str, is_dir: bool) -> FsEntry {
    FsEntry {
        name: name.to_string(),
        path: format!("/d/{name}"),
        is_dir,
        size: 0,
        modified: None,
    }
}

/// The size text as the float computation prints it.
fn float_size(size: u64, is_dir: bool) -> String {
    if is_dir {
        return String::new();
    }
    const UNITS: [&str; 5] = ["B", "KB", "MB", "GB", "TB"];
    let mut size_f = size as f64;
    let mut unit = 0;
    while size_f >= 1024.0 && unit < UNITS.len() - 1 {
        size_f /= 1024.0;
        unit += 1;
    }
    if unit == 0 {
        format!("{size} {}", UNITS[unit])
    } else {
        format!("{size_f:.1} {}", UNITS[unit])
    }
}

#[test]
fn format_size_examples() {
    assert_eq!(format_size(0, false), "0 B");
    assert_eq!(format_size(1023, false), "1023 B");
    assert_eq!(format_size(1024, false), "1.0 KB");
    assert_eq!(format_size(1536, false), "1.5 KB");
    assert_eq!(format_size(1_048_576, false), "1.0 MB");
    assert_eq!(format_size(5 * 1_073_741_824, false), "5.0 GB");
    assert_eq!(format_size(3 * 1_099_511_627_776, false), "3.0 TB");
    assert_eq!(format_size(12345, true), "");
}

#[test]
fn format_size_matches_float_formatting() {
    let mut samples: Vec<u64> = vec![0, 1, 9, 10, 99, 1000, 1023, 1024, 1025, 1280, 1331, 1332, 2304,
        10239, 10240, 1_048_575, 1_048_576, 1_153_434, 1_073_741_823, 1_073_741_824,
        1_099_511_627_775, 1_099_511_627_776, 1_125_899_906_842_624, 9_007_199_254_740_991,
        9_007_199_254_740_993, 18_014_398_509_481_985, u64::MAX, u64::MAX - 1, 1 << 63];
    for k in 0..5u32 {
        let d = 1024u64.pow(k);
        for m in [1u64, 3, 5, 7, 11, 13, 25, 51, 77, 99, 101, 1023] {
            samples.push(d.saturating_mul(m) / 10);
            samples.push(d.saturating_mul(m) / 20);
            samples.push(d.saturating_mul(m) / 40);
        }
    }
    let mut x: u64 = 0x2545F4914F6CDD1D;
    for _ in 0..20000 {
        x ^= x << 13;
        x ^= x >> 7;
        x ^= x << 17;
        samples.push(x >> (x % 64));
    }
    for s in samples {
        assert_eq!(format_size(s, false), float_size(s, false), "size {s}");
    }
}

#[test]
fn icons_by_kind_and_extension() {
    assert_eq!(icon_for(&entry("photos", true)), "📁");
    assert_eq!(icon_for(&entry("cat.PNG", false)), "🖼");
    assert_eq!(icon_for(&entry("run.sh", false)), "⚙");
    assert_eq!(icon_for(&entry("setup.exe", false)), "💾");
    assert_eq!(icon_for(&entry("archive.tar.gz", false)), "🗜");
    assert_eq!(icon_for(&entry("notes.txt", false)), "📄");
    assert_eq!(icon_for(&entry("manual.pdf", false)), "📕");
    assert_eq!(icon_for(&entry("song.flac", false)), "🎵");
    assert_eq!(icon_for(&entry("clip.mkv", false)), "🎬");
    assert_eq!(icon_for(&entry("letter.docx", false)), "📘");
    assert_eq!(icon_for(&entry("sheet.xlsx", false)), "📗");
    assert_eq!(icon_for(&entry("deck.pptx", false)), "📙");
    assert_eq!(icon_for(&entry("main.rs", false)), "📝");
    assert_eq!(icon_for(&entry("README", false)), "📄");
    assert_eq!(icon_for(&entry("Makefile", false)), "📄");
    assert_eq!(icon_for(&entry(".bashrc", false)), "📄");
    assert_eq!(icon_for(&entry("weird.xyz", false)), "📄");
    assert_eq!(icon_for_extension("yml"), "📝");
    assert_eq!(icon_for_extension("JPG"), "📄");
}

#[test]
fn listing_order_puts_folders_first_and_ignores_case() {
    let sorted = sort_entries(vec![
        entry("b.txt", false),
        entry("Zeta", true),
        entry("A.txt", false),
        entry("alpha", true),
        entry("c.txt", false),
    ]);
    let names: Vec<&str> = sorted.iter().map(|e| e.name.as_str()).collect();
    assert_eq!(names, vec!["alpha", "Zeta", "A.txt", "b.txt", "c.txt"]);
}

#[test]
fn listing_order_is_stable_for_ties() {
    let sorted = sort_entries(vec![
        entry("Read.me", false),
        entry("b", false),
        entry("read.me", false),
        entry("READ.ME", false),
    ]);
    let names: Vec<&str> = sorted.iter().map(|e| e.name.as_str()).collect();
    assert_eq!(names, vec!["b", "Read.me", "read.me", "READ.ME"]);
}

#[test]
fn listing_order_of_nothing() {
    assert!(sort_entries(Vec::new()).is_empty());
}

#[test]
fn timestamp_text_pads_every_field() {
    assert_eq!(timestamp_text(2024, 3, 5, 7, 9), "2024-03-05 07:09");
    assert_eq!(timestamp_text(1999, 12, 31, 23, 59), "1999-12-31 23:59");
    assert_eq!(timestamp_text(0, 1, 1, 0, 0), "0000-01-01 00:00");
    assert_eq!(timestamp_text(7, 1, 1, 0, 0), "0007-01-01 00:00");
    assert_eq!(timestamp_text(-1, 1, 1, 0, 0), "-0001-01-01 00:00");
    assert_eq!(timestamp_text(10000, 1, 1, 0, 0), "+10000-01-01 00:00");
}

#[test]
fn epoch_seconds_borrow_a_second_before_the_epoch() {
    assert_eq!(epoch_seconds(false, 90, 5), Some((90, 5)));
    assert_eq!(epoch_seconds(true, 3, 0), Some((-3, 0)));
    assert_eq!(epoch_seconds(true, 1, 500_000_000), Some((-2, 500_000_000)));
    assert_eq!(epoch_seconds(true, 1 << 63, 0), None);
}

fn chrono_text(t: SystemTime) -> String {
    let local: chrono::DateTime<chrono::Local> = t.into();
    local.format("%Y-%m-%d %H:%M").to_string()
}

#[test]
fn modified_time_text() {
    assert_eq!(format_modified(None), "");
    for t in [
        UNIX_EPOCH,
        UNIX_EPOCH + Duration::from_secs(1_700_000_000),
        UNIX_EPOCH - Duration::from_millis(1_500),
    ] {
        let text = format_modified(modified_timestamp(t));
        assert_eq!(text, chrono_text(t));
        assert_eq!(text.len(), 16);
    }
    assert_eq!(modified_timestamp(UNIX_EPOCH - Duration::from_millis(1_500)), Some((-2, 500_000_000)));
    assert_eq!(format_modified(Some((i64::MAX, 0))), "");
}

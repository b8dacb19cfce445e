use connected::format::{format_file_size, format_timestamp};

fn float_formula(bytes: u64) -> String {
    const UNITS: [&str; 5] = ["B", "KB", "MB", "GB", "TB"];
    if bytes == 0 {
        return "0 B".to_string();
    }
    let i = (bytes as f64).log(1024.0).floor() as usize;
    let i = i.min(UNITS.len() - 1);
    let s = bytes as f64 / 1024.0f64.powi(i as i32);
    format!("{:.1} {}", s, UNITS[i])
}

#[test]
fn file_size_exact_values() {
    assert_eq!(format_file_size(0), "0 B");
    assert_eq!(format_file_size(1), "1.0 B");
    assert_eq!(format_file_size(1023), "1023.0 B");
    assert_eq!(format_file_size(1024), "1.0 KB");
    assert_eq!(format_file_size(1536), "1.5 KB");
    assert_eq!(format_file_size(1280), "1.2 KB");
    assert_eq!(format_file_size(1048576), "1.0 MB");
    assert_eq!(format_file_size(5 * 1024 * 1024 * 1024), "5.0 GB");
    assert_eq!(format_file_size(1024u64.pow(4)), "1.0 TB");
    assert_eq!(format_file_size(2048 * 1024u64.pow(4)), "2048.0 TB");
}

#[test]
fn file_size_agrees_with_float_formula() {
    let mut samples: Vec<u64> = vec![
        1, 9, 10, 99, 100, 512, 999, 1000, 1023, 1024, 1025, 1126, 1127, 1177, 1178, 1228, 1280,
        1331, 1332, 10239, 10240, 102400, 1047552, 1048575, 1048576, 1572864, 123456789,
        1073741823, 1073741824, 1099511627775, 1099511627776, 1125899906842624,
        (1u64 << 53) - 1,
    ];
    let mut x: u64 = 7;
    for _ in 0..2000 {
        x = x.wrapping_mul(6364136223846793005).wrapping_add(1442695040888963407);
        samples.push((x >> 11) % (1u64 << 50));
        samples.push((x >> 40) + 1);
    }
    for b in samples {
        assert_eq!(format_file_size(b), float_formula(b), "bytes = {}", b);
    }
}

#[test]
fn timestamp_relative_and_dated() {
    let now = 1_700_000_000_000u64;
    assert_eq!(format_timestamp(now, now), "Just now");
    assert_eq!(format_timestamp(now - 59_999, now), "Just now");
    assert_eq!(format_timestamp(now + 5_000, now), "Just now");
    assert_eq!(format_timestamp(now - 60_000, now), "1m ago");
    assert_eq!(format_timestamp(now - 3_599_000, now), "59m ago");
    assert_eq!(format_timestamp(now - 3_600_000, now), "1h ago");
    assert_eq!(format_timestamp(now - 86_400_000, now), "1d ago");
    assert_eq!(format_timestamp(now - 6 * 86_400_000, now), "6d ago");
    // 0 ms since the epoch, seen much later: day 0 of 1970.
    assert_eq!(format_timestamp(0, now), "1/1/70");
    // 400 days after the epoch: year 1971, 35 days into it.
    assert_eq!(format_timestamp(400 * 86_400_000, now), "2/6/71");
}

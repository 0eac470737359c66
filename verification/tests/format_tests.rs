use mdrs::format::format_bytes;

/// The same formatting computed with doubles, as `{:.1}` prints them.
fn reference(bytes: u64) -> String {
    let units = ["B", "KB", "MB", "GB"];
    let mut value = bytes as f64;
    let mut unit = 0usize;
    while value >= 1024.0 && unit < units.len() - 1 {
        value /= 1024.0;
        unit += 1;
    }
    if unit == 0 {
        format!("{bytes} {}", units[unit])
    } else {
        format!("{value:.1} {}", units[unit])
    }
}

#[test]
fn formats_small_sizes_in_bytes() {
    assert_eq!(format_bytes(0), "0 B");
    assert_eq!(format_bytes(1), "1 B");
    assert_eq!(format_bytes(1023), "1023 B");
}

#[test]
fn formats_larger_sizes_with_one_decimal() {
    assert_eq!(format_bytes(1024), "1.0 KB");
    assert_eq!(format_bytes(1536), "1.5 KB");
    assert_eq!(format_bytes(1024 * 1024), "1.0 MB");
    assert_eq!(format_bytes(512 * 1024), "512.0 KB");
    assert_eq!(format_bytes(3 * 1024 * 1024 * 1024), "3.0 GB");
    assert_eq!(format_bytes(5 * 1024 * 1024 * 1024 * 1024), "5120.0 GB");
}

#[test]
fn rounds_ties_to_even_like_doubles() {
    // 1280 bytes are exactly 1.25 KB.
    assert_eq!(format_bytes(1280), reference(1280));
    assert_eq!(format_bytes(1280), "1.2 KB");
    // 1331.2 is not a tie; 1.3 KB.
    assert_eq!(format_bytes(1331), reference(1331));
}

#[test]
fn agrees_with_double_formatting() {
    let mut samples: Vec<u64> = vec![u64::MAX, u64::MAX - 1, 1 << 53, (1 << 53) + 1, (1 << 54) + 3];
    let mut x: u64 = 0x9E37_79B9_7F4A_7C15;
    for _ in 0..20000 {
        x ^= x << 13;
        x ^= x >> 7;
        x ^= x << 17;
        samples.push(x);
        samples.push(x >> (x % 64));
        samples.push((x % 4096) * 1024 / 10 + 1024);
    }
    for b in 0..5000u64 {
        samples.push(b * 128);
    }
    for b in samples {
        assert_eq!(format_bytes(b), reference(b), "bytes = {b}");
    }
}

use macmon::ui::format::{bytes, decimal_string};

/// The formatting that the byte display is defined by, in floating point.
fn reference(count: u64) -> String {
    const UNITS: [&str; 6] = ["B", "KB", "MB", "GB", "TB", "PB"];
    let mut value = count as f64;
    let mut unit = 0;
    while value >= 1024.0 && unit < UNITS.len() - 1 {
        value /= 1024.0;
        unit += 1;
    }
    if unit == 0 {
        format!("{count} B")
    } else {
        format!("{value:.1} {}", UNITS[unit])
    }
}

#[test]
fn bytes_small_counts_are_exact() {
    assert_eq!(bytes(0), "0 B");
    assert_eq!(bytes(512), "512 B");
    assert_eq!(bytes(1023), "1023 B");
}

#[test]
fn bytes_scales_by_1024() {
    assert_eq!(bytes(1024), "1.0 KB");
    assert_eq!(bytes(1536), "1.5 KB");
    assert_eq!(bytes(1048576), "1.0 MB");
    assert_eq!(bytes(1073741824), "1.0 GB");
    assert_eq!(bytes(1099511627776), "1.0 TB");
    assert_eq!(bytes(1125899906842624), "1.0 PB");
    assert_eq!(bytes(u64::MAX), "16384.0 PB");
}

#[test]
fn bytes_ties_round_to_even() {
    // 1.25 KB and 1.75 KB are exact doubles that sit halfway between tenths.
    assert_eq!(bytes(1280), "1.2 KB");
    assert_eq!(bytes(1792), "1.8 KB");
}

#[test]
fn bytes_matches_floating_point_formatting() {
    let mut samples: Vec<u64> = Vec::new();
    for k in 0..64u32 {
        let p = 1u64 << k;
        for d in [0u64, 1, 2, 3, 5, 51, 52, 100, 1023, 1024, 4095] {
            samples.push(p.wrapping_add(d));
            samples.push(p.wrapping_sub(d));
        }
    }
    for n in 0..5000u64 {
        samples.push(n * 37 + 1000);
        samples.push(n.wrapping_mul(0x9E37_79B9_7F4A_7C15));
    }
    for n in samples {
        assert_eq!(bytes(n), reference(n), "count {n}");
    }
}

#[test]
fn decimal_matches_to_string() {
    for n in [0u64, 7, 10, 99, 100, 12345, u64::MAX] {
        assert_eq!(decimal_string(n), n.to_string());
    }
}

use orbitfm::size::format_size;

fn reference(size: u64) -> String {
    if size < 1024 {
        format!("{} B", size)
    } else if size < 1024 * 1024 {
        format!("{:.1} KB", size as f64 / 1024.0)
    } else if size < 1024 * 1024 * 1024 {
        format!("{:.1} MB", size as f64 / 1024.0 / 1024.0)
    } else {
        format!("{:.1} GB", size as f64 / 1024.0 / 1024.0 / 1024.0)
    }
}

#[test]
fn format_size_bytes() {
    assert_eq!(format_size(0), "0 B");
    assert_eq!(format_size(7), "7 B");
    assert_eq!(format_size(512), "512 B");
    assert_eq!(format_size(1023), "1023 B");
}

#[test]
fn format_size_units() {
    assert_eq!(format_size(1024), "1.0 KB");
    assert_eq!(format_size(1536), "1.5 KB");
    assert_eq!(format_size(1024 * 1024), "1.0 MB");
    assert_eq!(format_size(3 * 1024 * 1024), "3.0 MB");
    assert_eq!(format_size(1024 * 1024 * 1024), "1.0 GB");
    assert_eq!(format_size(1048575), "1024.0 KB");
}

#[test]
fn format_size_ties_round_to_even() {
    // 1280 bytes are exactly 1.25 KB, 1.75 KB is 1792 bytes
    assert_eq!(format_size(1280), reference(1280));
    assert_eq!(format_size(1792), reference(1792));
    assert_eq!(format_size(1280), "1.2 KB");
    assert_eq!(format_size(1792), "1.8 KB");
}

#[test]
fn format_size_matches_float_formatting() {
    let mut samples: Vec<u64> = Vec::new();
    for s in 0..5000u64 {
        samples.push(s);
        samples.push(1024 + s * 7);
        samples.push(1024 * 1024 + s * 7919);
        samples.push((1u64 << 30) + s * 104729);
        samples.push((1u64 << 30) * 3 + s * 512 * 1024 * 1024 / 10);
    }
    for k in 10..64u32 {
        let b = 1u64 << k;
        for d in 0..8u64 {
            samples.push(b + d);
            samples.push(b - d);
            samples.push(b + b / 2 + d);
            samples.push(b + b / 20 * 5 + d);
        }
    }
    samples.push(u64::MAX);
    samples.push(u64::MAX - 1);
    samples.push((1u64 << 53) + 1);
    samples.push((1u64 << 54) + 3);
    samples.push(u64::MAX - (1 << 10));
    for s in samples {
        assert_eq!(format_size(s), reference(s), "size {}", s);
    }
}

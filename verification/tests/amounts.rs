use yeti3_cleaner::amounts::{format_bytes, format_duration};

/// The same amounts in floating point.
fn in_doubles(value: u64) -> String {
    const KIB: f64 = 1024.0;
    const MIB: f64 = 1024.0 * KIB;
    const GIB: f64 = 1024.0 * MIB;
    const TIB: f64 = 1024.0 * GIB;
    let near = value as f64;
    if near >= TIB {
        format!("{:.2} TB", near / TIB)
    } else if near >= GIB {
        format!("{:.2} GB", near / GIB)
    } else if near >= MIB {
        format!("{:.1} MB", near / MIB)
    } else if near >= KIB {
        format!("{:.1} KB", near / KIB)
    } else {
        format!("{value} B")
    }
}

#[test]
fn sizes_have_exact_texts() {
    assert_eq!(format_bytes(0), "0 B");
    assert_eq!(format_bytes(1023), "1023 B");
    assert_eq!(format_bytes(1024), "1.0 KB");
    assert_eq!(format_bytes(1536), "1.5 KB");
    assert_eq!(format_bytes(1280), "1.2 KB");
    assert_eq!(format_bytes(1792), "1.8 KB");
    assert_eq!(format_bytes(1048575), "1024.0 KB");
    assert_eq!(format_bytes(1048576), "1.0 MB");
    assert_eq!(format_bytes(1 << 30), "1.00 GB");
    assert_eq!(format_bytes((1 << 30) + (1 << 27)), "1.12 GB");
    assert_eq!(format_bytes(5 * (1 << 40) / 2), "2.50 TB");
    assert_eq!(format_bytes(u64::MAX), "16777216.00 TB");
}

#[test]
fn sizes_agree_with_doubles() {
    let mut value: u64 = 1;
    for step in 0..200_000u64 {
        value = value.wrapping_mul(6364136223846793005).wrapping_add(1442695040888963407);
        let sample = value >> (step % 64);
        assert_eq!(format_bytes(sample), in_doubles(sample), "{sample}");
    }
    for exponent in 0..64 {
        let power = 1u64 << exponent;
        for near in [power - 1, power, power + 1, power | (power >> 1), power | (power >> 3)] {
            assert_eq!(format_bytes(near), in_doubles(near), "{near}");
        }
    }
    for eighth in 0..4096u64 {
        for unit in [128u64, 128 << 10, 128 << 20, 128 << 30] {
            assert_eq!(format_bytes(eighth * unit), in_doubles(eighth * unit));
        }
    }
}

#[test]
fn durations_have_exact_texts() {
    assert_eq!(format_duration(0), "0 сек");
    assert_eq!(format_duration(999), "0 сек");
    assert_eq!(format_duration(59_999), "59 сек");
    assert_eq!(format_duration(60_000), "1 мин 0 сек");
    assert_eq!(format_duration(3_725_000), "62 мин 5 сек");
}

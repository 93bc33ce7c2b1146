use vidlib::mediainfo::format_duration;
use vidlib::text::{
    append_decimal, append_decimal_padded, chars_of, find_first, find_last, slice_text,
    to_lower_hex, trim_bounds,
};
use vidlib::util::format_file_size;

fn padded(n: i64, width: usize) -> String {
    let mut out = String::new();
    append_decimal_padded(&mut out, n, width);
    out
}

fn plain(n: i64) -> String {
    let mut out = String::new();
    append_decimal(&mut out, n);
    out
}

#[test]
fn lower_hex_matches_the_standard_format() {
    for n in [0u64, 1, 9, 10, 15, 16, 255, 256, 4095, 0xdead_beef, u64::MAX - 1, u64::MAX] {
        assert_eq!(to_lower_hex(n), format!("{:x}", n));
    }
    assert_eq!(to_lower_hex(0), "0");
    assert_eq!(to_lower_hex(u64::MAX), "ffffffffffffffff");
}

#[test]
fn decimal_matches_the_standard_format() {
    for n in [0i64, 7, -7, 10, -10, 99, 100, 123456789, i64::MAX, i64::MIN, i64::MIN + 1] {
        assert_eq!(plain(n), format!("{}", n));
    }
    assert_eq!(plain(i64::MIN), "-9223372036854775808");
}

#[test]
fn padded_decimal_matches_the_standard_format() {
    for n in [0i64, 5, -5, 9, 10, -10, 99, 100, -100, 1000, i64::MAX, i64::MIN] {
        assert_eq!(padded(n, 2), format!("{:02}", n));
        assert_eq!(padded(n, 3), format!("{:03}", n));
        assert_eq!(padded(n, 0), format!("{}", n));
    }
    assert_eq!(padded(5, 2), "05");
    assert_eq!(padded(-5, 2), "-5");
    assert_eq!(padded(-5, 3), "-05");
    assert_eq!(padded(7, 3), "007");
}

#[test]
fn searches_find_first_and_last() {
    let chars = chars_of("a/b/c");
    assert_eq!(chars, vec!['a', '/', 'b', '/', 'c']);
    assert_eq!(find_first(&chars, '/'), 1);
    assert_eq!(find_first(&chars, 'x'), 5);
    assert_eq!(find_last(&chars, '/'), Some(3));
    assert_eq!(find_last(&chars, 'x'), None);
    assert_eq!(slice_text("héllo wörld", 1, 5), "éllo");
}

#[test]
fn trim_bounds_cut_white_space_at_both_ends() {
    let chars = chars_of(" \t H.264 \u{a0}\n");
    let (start, end) = trim_bounds(&chars, 0, chars.len());
    assert_eq!(chars[start..end].iter().collect::<String>(), "H.264");
    let blank = chars_of("   ");
    let (start, end) = trim_bounds(&blank, 0, blank.len());
    assert_eq!(start, end);
    let inner = chars_of("ab  cd");
    assert_eq!(trim_bounds(&inner, 0, 4), (0, 2));
}

fn reference_size(size: u64) -> String {
    let units = ["KB", "MB", "GB", "TB", "PB", "EB"];
    if size < 1024 {
        return format!("{} B", size);
    }
    let mut size = size as f64 / 1024.0;
    for unit in units.iter() {
        if size < 1024.0 {
            return format!("{:.1} {}", size, unit);
        }
        size /= 1024.0;
    }
    format!("{:.1} {}", size, units.last().unwrap())
}

#[test]
fn file_size_has_exact_values() {
    assert_eq!(format_file_size(0), "0 B");
    assert_eq!(format_file_size(1023), "1023 B");
    assert_eq!(format_file_size(1024), "1.0 KB");
    assert_eq!(format_file_size(1536), "1.5 KB");
    assert_eq!(format_file_size(1280), "1.2 KB");
    assert_eq!(format_file_size(1792), "1.8 KB");
    assert_eq!(format_file_size(1048575), "1024.0 KB");
    assert_eq!(format_file_size(1048576), "1.0 MB");
    assert_eq!(format_file_size(2 * 1024 * 1024), "2.0 MB");
    assert_eq!(format_file_size(5 * 1024 * 1024 * 1024), "5.0 GB");
    assert_eq!(format_file_size(u64::MAX), "16.0 EB");
}

#[test]
fn file_size_agrees_with_floating_point_arithmetic() {
    let mut samples: Vec<u64> = vec![
        1024, 1025, 1075, 1076, 1077, 1126, 1127, 1128, 1279, 1280, 1281, 2047, 2048, 10239,
        10240, 1048524, 1048525, 1048575, 1048576, 1073741823, 1073741824, 1099511627775,
        1099511627776, 9007199254740991, 9007199254740992, 9007199254740993, 9007199254740994,
        9007199254740995, 18014398509481983, 18014398509481984, 18014398509481985,
        1152921504606846975, 1152921504606846976, 1152921504606846977, u64::MAX - 1024,
        u64::MAX - 1, u64::MAX,
    ];
    let mut x: u64 = 0x9e3779b97f4a7c15;
    for _ in 0..20000 {
        x ^= x << 13;
        x ^= x >> 7;
        x ^= x << 17;
        samples.push(x);
        samples.push(x >> 11);
        samples.push(x >> 23);
        samples.push(x >> 37);
        samples.push(x >> 50);
    }
    for k in 1..64u32 {
        let p = 1u64 << k;
        for d in 0..4u64 {
            samples.push(p.wrapping_sub(d));
            samples.push(p.wrapping_add(d));
            samples.push((p / 4).wrapping_mul(5).wrapping_add(d));
        }
    }
    for size in samples {
        assert_eq!(format_file_size(size), reference_size(size), "size {}", size);
    }
}

fn reference_duration(duration: i64) -> String {
    let duration = duration + (if duration <= i64::MAX - 5000 { 5000 } else { 0 });
    let mut seconds = duration / 1000000;
    let us = duration % 1000000;
    let milliseconds = (100 * us) / 1000000;
    let mut minutes = seconds / 60;
    seconds %= 60;
    let hours = minutes / 60;
    minutes %= 60;
    format!("{:02}:{:02}:{:02}.{:03}", hours, minutes, seconds, milliseconds)
}

#[test]
fn duration_has_exact_values() {
    assert_eq!(format_duration(0), "00:00:00.000");
    assert_eq!(format_duration(1_000_000), "00:00:01.000");
    assert_eq!(format_duration(1_500_000), "00:00:01.050");
    assert_eq!(format_duration(3_661_990_000), "01:01:01.099");
    assert_eq!(format_duration(3_661_995_000), "01:01:02.000");
    assert_eq!(format_duration(360_000_000_000), "100:00:00.000");
}

#[test]
fn duration_agrees_with_truncating_arithmetic() {
    for d in [
        0i64,
        1,
        4999,
        5000,
        994_999,
        995_000,
        59_999_999,
        60_000_000,
        3_599_999_999,
        3_600_000_000,
        -1,
        -5000,
        -5001,
        -1_000_000,
        -61_000_000,
        -3_700_000_000,
        i64::MAX,
        i64::MAX - 4999,
        i64::MAX - 5000,
        i64::MIN,
        i64::MIN + 1,
    ] {
        assert_eq!(format_duration(d), reference_duration(d), "duration {}", d);
    }
}

use netsniffer::count::convert_packet_count_to_str;
use netsniffer::packet::get_length_str;

fn float_length_str(length: usize) -> String {
    if length < 1000 {
        format!("{} Б", length)
    } else if length < 1_000_000 {
        format!("{:.2} КБ", length as f64 / 1024.0)
    } else {
        format!("{:.2} МБ", length as f64 / 1_048_576.0)
    }
}

fn float_count_str(count: usize) -> String {
    if count < 1000 {
        count.to_string()
    } else if count < 1_000_000 {
        format!("{:.2}k", count as f64 / 1000.0)
    } else {
        format!("{:.2}m", count as f64 / 1_000_000.0)
    }
}

#[test]
fn length_bytes_exact() {
    assert_eq!(get_length_str(0), "0 Б");
    assert_eq!(get_length_str(7), "7 Б");
    assert_eq!(get_length_str(60), "60 Б");
    assert_eq!(get_length_str(999), "999 Б");
}

#[test]
fn length_kib_exact() {
    assert_eq!(get_length_str(1000), "0.98 КБ");
    assert_eq!(get_length_str(1024), "1.00 КБ");
    assert_eq!(get_length_str(1500), "1.46 КБ");
    assert_eq!(get_length_str(65535), "64.00 КБ");
    assert_eq!(get_length_str(999_999), "976.56 КБ");
}

#[test]
fn length_kib_ties_round_to_even() {
    // 1152 / 1024 = 1.125 exactly; 1.125 is a tie between 1.12 and 1.13.
    assert_eq!(get_length_str(1152), float_length_str(1152));
    assert_eq!(get_length_str(1152), "1.12 КБ");
    // 1408 / 1024 = 1.375 exactly.
    assert_eq!(get_length_str(1408), "1.38 КБ");
}

#[test]
fn length_mib_exact() {
    assert_eq!(get_length_str(1_000_000), "0.95 МБ");
    assert_eq!(get_length_str(1_048_576), "1.00 МБ");
    assert_eq!(get_length_str(10_485_760), "10.00 МБ");
}

#[test]
fn length_matches_float_formatting() {
    let mut n: usize = 0;
    while n < 2_100_000 {
        assert_eq!(get_length_str(n), float_length_str(n), "length {}", n);
        n += if n < 5000 { 1 } else { 97 };
    }
    for k in 0..4096usize {
        let n = 1000 + k * 128;
        assert_eq!(get_length_str(n), float_length_str(n), "length {}", n);
    }
}

#[test]
fn length_huge_values_match_float_formatting() {
    let samples: [usize; 12] = [
        (1usize << 53) - 1,
        1usize << 53,
        (1usize << 53) + 1,
        (1usize << 53) + 3,
        (1usize << 54) + 2,
        (1usize << 54) + 6,
        (1usize << 60) + 12345,
        usize::MAX - 1,
        usize::MAX,
        123_456_789_012_345_678,
        999_999_999_999,
        (1usize << 63) + (1usize << 10) + 1,
    ];
    for &n in samples.iter() {
        assert_eq!(get_length_str(n), float_length_str(n), "length {}", n);
    }
}

#[test]
fn count_exact() {
    assert_eq!(convert_packet_count_to_str(0), "0");
    assert_eq!(convert_packet_count_to_str(999), "999");
    assert_eq!(convert_packet_count_to_str(1000), "1.00k");
    assert_eq!(convert_packet_count_to_str(1234), "1.23k");
    assert_eq!(convert_packet_count_to_str(999_999), "1000.00k");
    assert_eq!(convert_packet_count_to_str(1_000_000), "1.00m");
    assert_eq!(convert_packet_count_to_str(2_500_000), "2.50m");
}

#[test]
fn count_matches_float_formatting() {
    let mut n: usize = 0;
    while n < 3_000_000 {
        assert_eq!(convert_packet_count_to_str(n), float_count_str(n), "count {}", n);
        n += if n < 20_000 { 1 } else { 37 };
    }
    for k in 0..20_000usize {
        // counts whose thousandths end in 5: the decimal ties
        let n = 1000 + k * 10 + 5;
        assert_eq!(convert_packet_count_to_str(n), float_count_str(n), "count {}", n);
        let m = 1_000_000 + k * 10_000 + 5_000;
        assert_eq!(convert_packet_count_to_str(m), float_count_str(m), "count {}", m);
    }
}

#[test]
fn count_huge_values_match_float_formatting() {
    let samples: [usize; 8] = [
        (1usize << 53) - 1,
        (1usize << 53) + 1,
        (1usize << 55) + 5,
        usize::MAX,
        usize::MAX - 2048,
        18_446_744_073_709_000_000,
        123_456_789_012_345,
        4_503_599_627_370_495,
    ];
    for &n in samples.iter() {
        assert_eq!(convert_packet_count_to_str(n), float_count_str(n), "count {}", n);
    }
}

/// The kibibyte figure stays within half a hundredth of the exact ratio.
#[test]
fn kib_figure_within_half_hundredth() {
    for length in [1000usize, 1500, 4097, 65535, 123_457, 999_999] {
        let text = get_length_str(length);
        let number = text.trim_end_matches(" КБ");
        let (units, hundredths) = number.split_once('.').unwrap();
        let n: i64 = units.parse::<i64>().unwrap() * 100 + hundredths.parse::<i64>().unwrap();
        let error = n * 1024 - (length as i64) * 100;
        assert!(2 * error.abs() <= 1024, "length {} text {}", length, text);
    }
}

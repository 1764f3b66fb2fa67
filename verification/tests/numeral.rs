use empire::mpiexec::checks_usize;
use empire::numeral::{format_i32, format_u64, format_usize, parse_usize};

#[test]
fn parse_usize_reads_plain_numerals() {
    assert_eq!(parse_usize("0"), Some(0));
    assert_eq!(parse_usize("42"), Some(42));
    assert_eq!(parse_usize("007"), Some(7));
    assert_eq!(parse_usize("+7"), Some(7));
    assert_eq!(parse_usize("65535"), Some(65535));
}

#[test]
fn parse_usize_refuses_what_is_no_numeral() {
    assert_eq!(parse_usize(""), None);
    assert_eq!(parse_usize("+"), None);
    assert_eq!(parse_usize("-1"), None);
    assert_eq!(parse_usize("-0"), None);
    assert_eq!(parse_usize("12a"), None);
    assert_eq!(parse_usize(" 1"), None);
    assert_eq!(parse_usize("1 "), None);
    assert_eq!(parse_usize("++1"), None);
    assert_eq!(parse_usize("1+"), None);
    assert_eq!(parse_usize("\u{ff11}"), None);
    assert_eq!(parse_usize("1\u{e9}"), None);
}

#[test]
fn parse_usize_stops_at_the_largest_usize() {
    let largest = usize::MAX.to_string();
    assert_eq!(parse_usize(&largest), Some(usize::MAX));
    let mut beyond = largest.clone();
    beyond.push('0');
    assert_eq!(parse_usize(&beyond), None);
    assert_eq!(parse_usize("340282366920938463463374607431768211456"), None);
}

#[test]
fn parse_usize_agrees_with_the_standard_parser() {
    let samples = [
        "", "0", "1", "+", "+0", "+12", "-", "-3", "9", "10", "0010", "18446744073709551615",
        "18446744073709551616", "99999999999999999999999", "1_000", "0x10", "1e3", "12 ", "٣",
    ];
    for sample in samples.iter() {
        assert_eq!(parse_usize(sample), sample.parse::<usize>().ok(), "{:?}", sample);
    }
}

#[test]
fn format_writes_decimal_numerals() {
    assert_eq!(format_usize(0), "0");
    assert_eq!(format_usize(9), "9");
    assert_eq!(format_usize(10), "10");
    assert_eq!(format_usize(12345), "12345");
    assert_eq!(format_u64(u64::MAX), "18446744073709551615");
    assert_eq!(format_i32(0), "0");
    assert_eq!(format_i32(-1), "-1");
    assert_eq!(format_i32(255), "255");
    assert_eq!(format_i32(i32::MAX), "2147483647");
    assert_eq!(format_i32(i32::MIN), "-2147483648");
}

#[test]
fn formatted_numbers_read_back() {
    for n in [0usize, 1, 9, 10, 99, 100, 4096, 65535, usize::MAX] {
        assert_eq!(parse_usize(&format_usize(n)), Some(n));
        assert_eq!(format_usize(n), n.to_string());
    }
}

#[test]
fn checks_usize_accepts_numbers_only() {
    assert_eq!(checks_usize(String::from("3")), Ok(()));
    assert_eq!(checks_usize(String::from("0")), Ok(()));
    assert_eq!(
        checks_usize(String::from("three")),
        Err(String::from("This value must be a positive integer"))
    );
    assert_eq!(
        checks_usize(String::from("-3")),
        Err(String::from("This value must be a positive integer"))
    );
    assert_eq!(
        checks_usize(String::new()),
        Err(String::from("This value must be a positive integer"))
    );
}

//! Display formatting helpers.

use zencore::utils::{
    format_bytes, format_compression_ratio, format_duration, format_number, format_percentage,
    truncate_string,
};

#[test]
fn test_format_bytes() {
    assert_eq!(format_bytes(0), "0 B");
    assert_eq!(format_bytes(1024), "1.00 KB");
    assert_eq!(format_bytes(1_048_576), "1.00 MB");
    assert_eq!(format_bytes(1_073_741_824), "1.00 GB");
}

#[test]
fn test_format_bytes_fractions_and_units() {
    assert_eq!(format_bytes(1023), "1023.00 B");
    assert_eq!(format_bytes(1536), "1.50 KB");
    assert_eq!(format_bytes(1_099_511_627_776), "1.00 TB");
    assert_eq!(format_bytes(1_125_899_906_842_624), "1.00 PB");
}

#[test]
fn test_format_duration() {
    assert_eq!(format_duration(30), "30s");
    assert_eq!(format_duration(90), "1m 30s");
    assert_eq!(format_duration(3661), "1h 1m");
}

#[test]
fn test_truncate_string() {
    assert_eq!(truncate_string("short", 10), "short");
    assert_eq!(truncate_string("this is a long string", 10), "this is...");
    assert_eq!(truncate_string("exact", 5), "exact");
}

#[test]
fn test_format_percentage() {
    assert_eq!(format_percentage(50, 100), "50%");
    assert_eq!(format_percentage(1, 3), "33%");
    assert_eq!(format_percentage(0, 0), "0%");
}

#[test]
fn test_format_number() {
    assert_eq!(format_number(1000), "1,000");
    assert_eq!(format_number(1000000), "1,000,000");
    assert_eq!(format_number(123), "123");
}

#[test]
fn test_compression_ratio() {
    assert_eq!(format_compression_ratio(1000, 500), "50.0%");
    assert_eq!(format_compression_ratio(1000, 750), "75.0%");
    assert_eq!(format_compression_ratio(0, 100), "N/A");
}

#[test]
fn test_signed_and_wide_decimals() {
    assert_eq!(zencore::text::u64_to_string(0), "0");
    assert_eq!(zencore::text::u64_to_string(90210), "90210");
    assert_eq!(zencore::text::signed_to_string(-42), "-42");
    assert_eq!(zencore::text::signed_to_string(i64::MIN), "-9223372036854775808");
    assert_eq!(
        zencore::text::u128_to_string(340_282_366_920_938_463_463_374_607_431_768_211_455),
        "340282366920938463463374607431768211455"
    );
}

#[test]
fn test_replace_and_search_helpers() {
    assert_eq!(zencore::text::replace_all("a-b-c", "-", "::"), "a::b::c");
    assert_eq!(zencore::text::replace_all("aaaa", "aa", "b"), "bb");
    assert_eq!(zencore::text::replace_all("abc", "", "x"), "abc");
    assert!(zencore::text::str_contains("hello world", "lo wo"));
    assert!(!zencore::text::str_contains("hello", "world"));
    assert!(zencore::text::str_ends_with("a.tar.gz", ".gz"));
    assert!(zencore::text::str_starts_with("/home/user", "/home"));
    assert!(zencore::text::eq_ignore_ascii_case("AbC", "aBc"));
    assert!(!zencore::text::eq_ignore_ascii_case("abc", "abd"));
}

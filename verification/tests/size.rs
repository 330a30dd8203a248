use forge::size::{byte_unit, format_hms, size_parts, unit_name, whole_bytes, SizeError};
use forge::text::{decimal, parse_u64};

fn parts(s: &str) -> (String, u64) {
    size_parts(s).unwrap()
}

#[test]
fn sizes_with_units() {
    assert_eq!(parts("50mb"), ("50".to_string(), 1_000_000));
    assert_eq!(parts("25MB"), ("25".to_string(), 1_000_000));
    assert_eq!(parts(" 100 mb "), ("100".to_string(), 1_000_000));
    assert_eq!(parts("2k"), ("2".to_string(), 1_000));
    assert_eq!(parts("3g"), ("3".to_string(), 1_000_000_000));
    assert_eq!(parts("2kib"), ("2".to_string(), 1_024));
    assert_eq!(parts("1Mi"), ("1".to_string(), 1_048_576));
    assert_eq!(parts("1gib"), ("1".to_string(), 1_073_741_824));
    assert_eq!(parts("512b"), ("512".to_string(), 1));
    assert_eq!(parts("2048"), ("2048".to_string(), 1));
}

#[test]
fn sizes_with_fractions() {
    assert_eq!(parts("1.5GiB"), ("1.5".to_string(), 1_073_741_824));
    assert_eq!(parts("1.5mb"), ("1.5".to_string(), 1_000_000));
    assert_eq!(parts(".5k"), (".5".to_string(), 1_000));
    assert_eq!(parts("5."), ("5.".to_string(), 1));
    assert_eq!(parts("0.0001kb"), ("0.0001".to_string(), 1_000));
    assert_eq!(parts("99999999999999999999999gb"), ("99999999999999999999999".to_string(), 1_000_000_000));
}

#[test]
fn invalid_numbers_are_refused() {
    for s in ["", "abc", ".", "1.2.3mb", "mb", "  "] {
        match size_parts(s) {
            Err(SizeError::InvalidNumber { input }) => assert_eq!(input, s),
            other => panic!("{s:?} gave {other:?}"),
        }
    }
    assert_eq!(
        size_parts("x").unwrap_err().message(),
        "invalid size `x`"
    );
    match size_parts("1.2.3xb") {
        Err(SizeError::InvalidNumber { input }) => assert_eq!(input, "1.2.3xb"),
        other => panic!("gave {other:?}"),
    }
}

#[test]
fn unknown_units_are_refused() {
    match size_parts("10xb") {
        Err(SizeError::UnknownUnit { unit }) => assert_eq!(unit, "xb"),
        other => panic!("gave {other:?}"),
    }
    match size_parts("10 K B") {
        Err(SizeError::UnknownUnit { unit }) => assert_eq!(unit, "k b"),
        other => panic!("gave {other:?}"),
    }
    assert_eq!(
        size_parts("5tb").unwrap_err().message(),
        "unknown size unit `tb`"
    );
}

#[test]
fn byte_units() {
    assert_eq!(byte_unit(0), 0);
    assert_eq!(byte_unit(999), 0);
    assert_eq!(byte_unit(1000), 1);
    assert_eq!(byte_unit(999_999), 1);
    assert_eq!(byte_unit(1_000_000), 2);
    assert_eq!(byte_unit(1_000_000_000), 3);
    assert_eq!(byte_unit(1_000_000_000_000), 4);
    assert_eq!(byte_unit(u64::MAX), 4);
    assert_eq!(unit_name(0), "B");
    assert_eq!(unit_name(2), "MB");
    assert_eq!(unit_name(4), "TB");
    assert_eq!(whole_bytes(512), "512 B");
}

#[test]
fn durations_as_hours_minutes_seconds() {
    assert_eq!(format_hms(0), "00:00:00");
    assert_eq!(format_hms(3725), "01:02:05");
    assert_eq!(format_hms(59), "00:00:59");
    assert_eq!(format_hms(360_000), "100:00:00");
}

#[test]
fn decimals_read_back() {
    for n in [0u64, 7, 10, 99, 12345, u64::MAX] {
        assert_eq!(decimal(n), n.to_string());
        assert_eq!(parse_u64(&decimal(n)), Some(n));
        assert_eq!(parts(&decimal(n)), (n.to_string(), 1));
    }
    assert_eq!(parse_u64("+12"), Some(12));
    assert_eq!(parse_u64("18446744073709551616"), None);
    assert_eq!(parse_u64("-1"), None);
    assert_eq!(parse_u64(""), None);
    assert_eq!(parse_u64("+"), None);
    assert_eq!(parse_u64("12a"), None);
}

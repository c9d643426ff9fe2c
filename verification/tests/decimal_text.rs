use new_media::decimal::{decimal_len, format_u64, format_u64_padded, parse_u16};

#[test]
fn formats_like_display() {
    for n in [0u64, 7, 10, 99, 100, 12345, 1_000_000, u64::MAX] {
        assert_eq!(format_u64(n), format!("{}", n));
        assert_eq!(decimal_len(n), format!("{}", n).len());
    }
}

#[test]
fn pads_like_zero_width() {
    for n in [0u64, 5, 42, 123456, 1234567, u64::MAX] {
        assert_eq!(format_u64_padded(n, 6), format!("{:06}", n));
        assert_eq!(format_u64_padded(n, 0), format!("{}", n));
    }
    assert_eq!(format_u64_padded(42, 6), "000042");
}

#[test]
fn parses_like_str_parse() {
    let inputs = [
        "", "+", "-", "0", "8080", "+8080", "-8080", "65535", "65536", "0065535", "99999",
        "99999x", "12a", " 80", "80 ", "+-1", "00000", "٣",
    ];
    for s in inputs {
        assert_eq!(parse_u16(s), s.parse::<u16>().ok(), "input {s:?}");
    }
}

#[test]
fn round_trip_of_formatting() {
    for n in [0u16, 1, 80, 443, 8080, 65535] {
        assert_eq!(parse_u16(&format_u64(n as u64)), Some(n));
        assert_eq!(parse_u16(&format_u64_padded(n as u64, 6)), Some(n));
    }
}

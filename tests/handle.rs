use capture_core::handle::parse_window_handle;

#[test]
fn parses_prefixed_address() {
    assert_eq!(parse_window_handle("0x5a3f10"), Some(0x5a3f10));
}

#[test]
fn keeps_low_32_bits_of_long_address() {
    assert_eq!(parse_window_handle("0x55d1a2b3c4d0"), Some(0xa2b3c4d0));
    assert_eq!(parse_window_handle("0xFFFFFFFFFFFFFFFF"), Some(0xffff_ffff));
}

#[test]
fn parses_address_without_prefix() {
    assert_eq!(parse_window_handle("abc"), Some(0xabc));
    assert_eq!(parse_window_handle("AbC"), Some(0xabc));
}

#[test]
fn accepts_one_plus_sign() {
    assert_eq!(parse_window_handle("0x+10"), Some(16));
    assert_eq!(parse_window_handle("+"), None);
    assert_eq!(parse_window_handle("0x++1"), None);
}

#[test]
fn rejects_empty_and_bad_digits() {
    assert_eq!(parse_window_handle(""), None);
    assert_eq!(parse_window_handle("0x"), None);
    assert_eq!(parse_window_handle("0xzz"), None);
    assert_eq!(parse_window_handle("0x-1"), None);
    assert_eq!(parse_window_handle("0X12"), None);
}

#[test]
fn rejects_more_than_64_bits() {
    assert_eq!(parse_window_handle("0x10000000000000000"), None);
    assert_eq!(parse_window_handle("0x0000000000000000001"), Some(1));
}

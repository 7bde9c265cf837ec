use blockstream_inspector::units::{
    bool_to_string, bps_to_percent_string, parse_u128, parse_u64, u128_to_string, u64_to_string,
    usize_to_string,
};

#[test]
fn test_decimal_rendering() {
    assert_eq!(u64_to_string(0), "0");
    assert_eq!(u64_to_string(7), "7");
    assert_eq!(u64_to_string(18000000), "18000000");
    assert_eq!(u64_to_string(u64::MAX), "18446744073709551615");
    assert_eq!(
        u128_to_string(u128::MAX),
        "340282366920938463463374607431768211455"
    );
    assert_eq!(usize_to_string(247), "247");
}

#[test]
fn test_decimal_parsing() {
    assert_eq!(parse_u128("0"), Some(0));
    assert_eq!(parse_u128("42"), Some(42));
    assert_eq!(parse_u128("007"), Some(7)); // leading zeros parse; value is exact
    assert_eq!(
        parse_u128("340282366920938463463374607431768211455"),
        Some(u128::MAX)
    );
    assert_eq!(parse_u128("340282366920938463463374607431768211456"), None); // overflow
    assert_eq!(parse_u128(""), None);
    assert_eq!(parse_u128("12a"), None);
    assert_eq!(parse_u128("-1"), None);
    assert_eq!(parse_u128(" 1"), None);

    assert_eq!(parse_u64("18446744073709551615"), Some(u64::MAX));
    assert_eq!(parse_u64("18446744073709551616"), None);
}

#[test]
fn test_parse_render_roundtrip() {
    for n in [0u128, 1, 9, 10, 99, 100, 12345678901234567890, u128::MAX] {
        assert_eq!(parse_u128(&u128_to_string(n)), Some(n));
    }
}

#[test]
fn test_percent_rendering() {
    assert_eq!(bps_to_percent_string(9944), "99.44");
    assert_eq!(bps_to_percent_string(9945), "99.45");
    assert_eq!(bps_to_percent_string(0), "0.00");
    assert_eq!(bps_to_percent_string(5), "0.05");
    assert_eq!(bps_to_percent_string(10000), "100.00");
    assert_eq!(bps_to_percent_string(12345), "123.45");
}

#[test]
fn test_bool_rendering() {
    assert_eq!(bool_to_string(true), "true");
    assert_eq!(bool_to_string(false), "false");
}

use utilities::numfmt::{parse_u64_dec, u64_to_dec, u64_to_pad2, u64_to_pad4, u64_to_pad6};

#[test]
fn renders_decimals_exactly() {
    assert_eq!(u64_to_dec(0), "0");
    assert_eq!(u64_to_dec(7), "7");
    assert_eq!(u64_to_dec(10), "10");
    assert_eq!(u64_to_dec(50000000), "50000000");
    assert_eq!(u64_to_dec(u64::MAX), "18446744073709551615");
}

#[test]
fn parses_decimals_exactly() {
    assert_eq!(parse_u64_dec("0"), Some(0));
    assert_eq!(parse_u64_dec("00042"), Some(42));
    assert_eq!(parse_u64_dec("18446744073709551615"), Some(u64::MAX));
}

#[test]
fn rejects_non_decimals_and_overflow() {
    assert_eq!(parse_u64_dec(""), None);
    assert_eq!(parse_u64_dec("12a"), None);
    assert_eq!(parse_u64_dec("-1"), None);
    assert_eq!(parse_u64_dec("18446744073709551616"), None);
}

#[test]
fn round_trips_through_rendering() {
    let samples: Vec<u64> = vec![0, 1, 9, 10, 99, 100, 40800000, u64::MAX];
    for n in samples {
        assert_eq!(parse_u64_dec(&u64_to_dec(n)), Some(n));
    }
}

#[test]
fn pads_to_fixed_widths() {
    assert_eq!(u64_to_pad2(3), "03");
    assert_eq!(u64_to_pad2(59), "59");
    assert_eq!(u64_to_pad4(1), "0001");
    assert_eq!(u64_to_pad4(987), "0987");
    assert_eq!(u64_to_pad4(2023), "2023");
    assert_eq!(u64_to_pad6(0), "000000");
    assert_eq!(u64_to_pad6(250000), "250000");
    assert_eq!(u64_to_pad6(42), "000042");
}

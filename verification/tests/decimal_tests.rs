use stake_checker::decimal::DecimalPointPuttable;

#[test]
fn check_with_decimal_point() {
    assert_eq!("123".with_decimal_point(10), "0.0000000123");
    assert_eq!("12345678905".with_decimal_point(10), "1.2345678905");
    assert_eq!("1234567890".with_decimal_point(10), "0.1234567890");
}

#[test]
fn check_with_decimal_point_strings() {
    assert_eq!("123".with_decimal_point(10), "0.0000000123");
    assert_eq!("12345678905".with_decimal_point(10), "1.2345678905");
    assert_eq!("1234567890".with_decimal_point(10), "0.1234567890");
}

#[test]
fn check_with_decimal_point_u128() {
    assert_eq!(123u128.with_decimal_point(10), "0.0000000123");
    assert_eq!(12345678905u128.with_decimal_point(10), "1.2345678905");
    assert_eq!(1234567890u128.with_decimal_point(10), "0.1234567890");
}

#[test]
fn decimal_point_with_zero_decimals_goes_at_the_end() {
    assert_eq!("123".with_decimal_point(0), "123.");
    assert_eq!(0u128.with_decimal_point(0), "0.");
}

#[test]
fn decimal_point_pads_exactly_to_one_leading_digit() {
    assert_eq!("".with_decimal_point(0), "0.");
    assert_eq!("7".with_decimal_point(1), "0.7");
    assert_eq!("7".with_decimal_point(3), "0.007");
    assert_eq!(10000000000u128.with_decimal_point(10), "1.0000000000");
}

#[test]
fn decimal_point_output_without_point_is_the_padded_digits() {
    let cases: [(&str, usize); 4] = [("123", 10), ("12345678905", 10), ("9", 0), ("", 4)];
    for (digits, decimals) in cases {
        let out = digits.with_decimal_point(decimals);
        let without: String = out.chars().filter(|c| *c != '.').collect();
        let expected_len = if digits.len() > decimals { digits.len() } else { decimals + 1 };
        assert_eq!(without.len(), expected_len);
        assert!(without.ends_with(digits));
        assert!(without[..expected_len - digits.len()].chars().all(|c| c == '0'));
    }
}

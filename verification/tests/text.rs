use rate_limiting::text::{decimal_string, digits_string};

#[test]
fn decimal_text_of_small_numbers() {
    assert_eq!(decimal_string(0), "0");
    assert_eq!(decimal_string(7), "7");
    assert_eq!(decimal_string(10), "10");
    assert_eq!(decimal_string(429), "429");
    assert_eq!(decimal_string(1_700_000_000), "1700000000");
}

#[test]
fn decimal_text_of_negative_numbers() {
    assert_eq!(decimal_string(-1), "-1");
    assert_eq!(decimal_string(-60), "-60");
    assert_eq!(decimal_string(-2_203_891_200), "-2203891200");
}

#[test]
fn decimal_text_at_the_ends_of_the_range() {
    assert_eq!(decimal_string(i64::MAX), "9223372036854775807");
    assert_eq!(decimal_string(i64::MIN), "-9223372036854775808");
    assert_eq!(digits_string(u64::MAX), "18446744073709551615");
    assert_eq!(digits_string(0), "0");
}

#[test]
fn decimal_text_agrees_with_the_standard_library() {
    let mut value: i64 = 1;
    for _ in 0..62 {
        assert_eq!(decimal_string(value), value.to_string());
        assert_eq!(decimal_string(-value), (-value).to_string());
        assert_eq!(decimal_string(value - 1), (value - 1).to_string());
        value *= 2;
    }
}

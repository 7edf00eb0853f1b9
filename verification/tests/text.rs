use orpheus::text::decimal_string;

#[test]
fn decimal_string_renders_like_to_string() {
    for n in [0u64, 7, 9, 10, 42, 100, 1234567890, u64::MAX] {
        assert_eq!(decimal_string(n), n.to_string());
    }
}

#[test]
fn decimal_string_exact_values() {
    assert_eq!(decimal_string(0), "0");
    assert_eq!(decimal_string(9000), "9000");
    assert_eq!(decimal_string(u64::MAX), "18446744073709551615");
}

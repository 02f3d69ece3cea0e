use dns_speed::text::decimal_text;

#[test]
fn zero_is_one_digit() {
    assert_eq!(decimal_text(0), "0");
}

#[test]
fn single_digits_are_written() {
    let texts: Vec<String> = (0..10usize).map(decimal_text).collect();
    assert_eq!(texts, vec!["0", "1", "2", "3", "4", "5", "6", "7", "8", "9"]);
}

#[test]
fn several_digits_are_written_in_order() {
    assert_eq!(decimal_text(10), "10");
    assert_eq!(decimal_text(42), "42");
    assert_eq!(decimal_text(100), "100");
    assert_eq!(decimal_text(9_876_543_210), "9876543210");
}

#[test]
fn largest_number_is_written() {
    assert_eq!(decimal_text(usize::MAX), usize::MAX.to_string());
}

#[test]
fn decimal_text_agrees_with_formatting() {
    let mut n: usize = 1;
    for _ in 0..19 {
        assert_eq!(decimal_text(n), format!("{}", n));
        assert_eq!(decimal_text(n - 1), format!("{}", n - 1));
        n = n.wrapping_mul(7).wrapping_add(3);
    }
}

use codecrafters_shell::number::{decimal, decimal_width4};

#[test]
fn decimal_digits() {
    assert_eq!(decimal(0), "0");
    assert_eq!(decimal(9), "9");
    assert_eq!(decimal(10), "10");
    assert_eq!(decimal(1234567), "1234567");
    assert_eq!(decimal(usize::MAX), usize::MAX.to_string());
}

#[test]
fn right_aligned_in_four() {
    for n in [0usize, 7, 42, 999, 1000, 9999, 10000, 123456] {
        assert_eq!(decimal_width4(n), format!("{:>4}", n));
    }
    assert_eq!(decimal_width4(7), "   7");
    assert_eq!(decimal_width4(12345), "12345");
}

use ka3005p::Decimal;

#[test]
fn parse_decimal_texts() {
    assert_eq!(Decimal::parse(b"12.00"), Some(Decimal::new(1200, 2)));
    assert_eq!(Decimal::parse(b"5"), Some(Decimal::new(5, 0)));
    assert_eq!(Decimal::parse(b"5."), Some(Decimal::new(5, 0)));
    assert_eq!(Decimal::parse(b".5"), Some(Decimal::new(5, 1)));
    assert_eq!(Decimal::parse(b"007.250"), Some(Decimal::new(7250, 3)));
    assert_eq!(
        Decimal::parse(b"18446744073709551615"),
        Some(Decimal::new(u64::MAX, 0))
    );
}

#[test]
fn parse_rejects_non_decimal_texts() {
    assert_eq!(Decimal::parse(b""), None);
    assert_eq!(Decimal::parse(b"."), None);
    assert_eq!(Decimal::parse(b"1..0"), None);
    assert_eq!(Decimal::parse(b"-1.0"), None);
    assert_eq!(Decimal::parse(b"1e3"), None);
    assert_eq!(Decimal::parse(b"18446744073709551616"), None);
}

#[test]
fn rounded_half_up() {
    assert_eq!(Decimal::new(3123, 3).rounded(2), 312);
    assert_eq!(Decimal::new(3125, 3).rounded(2), 313);
    assert_eq!(Decimal::new(4, 0).rounded(3), 4000);
    assert_eq!(Decimal::new(u64::MAX, 0).rounded(3), u64::MAX as u128 * 1000);
    assert_eq!(Decimal::new(u64::MAX, 25).rounded(2), 0);
    assert_eq!(Decimal::new(u64::MAX, 21).rounded(2), 2);
    assert_eq!(Decimal::new(u64::MAX, 22).rounded(2), 0);
    assert_eq!(Decimal::new(u64::MAX, 19).rounded(0), 2);
}

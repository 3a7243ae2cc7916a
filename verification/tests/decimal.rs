use barter_data::decimal::Decimal;

#[test]
fn parse_reads_plain_decimal_text() {
    assert_eq!(Decimal::parse("111.06"), Some(Decimal { units: 11106, scale: 2 }));
    assert_eq!(Decimal::parse("57745"), Some(Decimal { units: 57745, scale: 0 }));
    assert_eq!(Decimal::parse("0.00010000"), Some(Decimal { units: 1, scale: 4 }));
    assert_eq!(Decimal::parse("007"), Some(Decimal { units: 7, scale: 0 }));
}

#[test]
fn parse_drops_trailing_fractional_zeros() {
    assert_eq!(Decimal::parse("0.500"), Some(Decimal { units: 5, scale: 1 }));
    assert_eq!(Decimal::parse("1.50"), Decimal::parse("1.5"));
    assert_eq!(Decimal::parse("16493.50"), Some(Decimal { units: 164935, scale: 1 }));
    assert_eq!(Decimal::parse("10.0"), Some(Decimal { units: 10, scale: 0 }));
    assert_eq!(Decimal::parse("100"), Some(Decimal { units: 100, scale: 0 }));
}

#[test]
fn parse_reads_zero_in_every_spelling() {
    let zero = Some(Decimal { units: 0, scale: 0 });
    assert_eq!(Decimal::parse("0"), zero);
    assert_eq!(Decimal::parse("0.0"), zero);
    assert_eq!(Decimal::parse("0.000"), zero);
    assert_eq!(Decimal::parse("000"), zero);
    assert_eq!(Decimal::parse("0."), zero);
    assert_eq!(Decimal::parse(".0"), zero);
    assert!(Decimal::parse("0.00").unwrap().is_zero());
    assert!(!Decimal::parse("0.01").unwrap().is_zero());
}

#[test]
fn parse_accepts_a_missing_whole_or_fraction() {
    assert_eq!(Decimal::parse("5."), Some(Decimal { units: 5, scale: 0 }));
    assert_eq!(Decimal::parse(".5"), Some(Decimal { units: 5, scale: 1 }));
}

#[test]
fn parse_rejects_what_is_no_plain_decimal() {
    assert_eq!(Decimal::parse(""), None);
    assert_eq!(Decimal::parse("."), None);
    assert_eq!(Decimal::parse("-1"), None);
    assert_eq!(Decimal::parse("+1"), None);
    assert_eq!(Decimal::parse("1e5"), None);
    assert_eq!(Decimal::parse("1.2.3"), None);
    assert_eq!(Decimal::parse("1,5"), None);
    assert_eq!(Decimal::parse(" 1"), None);
    assert_eq!(Decimal::parse("1 "), None);
    assert_eq!(Decimal::parse("abc"), None);
    assert_eq!(Decimal::parse("NaN"), None);
    assert_eq!(Decimal::parse("１２"), None);
    assert_eq!(Decimal::parse("1.５"), None);
    assert_eq!(Decimal::parse("1.0x0"), None);
    assert_eq!(Decimal::parse("1.x00"), None);
}

#[test]
fn parse_knows_the_limits_of_the_representation() {
    assert_eq!(
        Decimal::parse("18446744073709551615"),
        Some(Decimal { units: u64::MAX, scale: 0 })
    );
    assert_eq!(Decimal::parse("18446744073709551616"), None);
    assert_eq!(
        Decimal::parse("1844674407370955161.5"),
        Some(Decimal { units: u64::MAX, scale: 1 })
    );
    assert_eq!(Decimal::parse("1844674407370955161.6"), None);
    assert_eq!(Decimal::parse("99999999999999999999"), None);
    assert_eq!(
        Decimal::parse("18446744073709551615.000000"),
        Some(Decimal { units: u64::MAX, scale: 0 })
    );
    assert_eq!(
        Decimal::parse("0.000000000000000000000000000001"),
        Some(Decimal { units: 1, scale: 30 })
    );
}

#[test]
fn new_is_canonical() {
    assert_eq!(Decimal::new(1500, 3), Decimal { units: 15, scale: 1 });
    assert_eq!(Decimal::new(1500, 1), Decimal { units: 150, scale: 0 });
    assert_eq!(Decimal::new(1500, 0), Decimal { units: 1500, scale: 0 });
    assert_eq!(Decimal::new(0, 9), Decimal { units: 0, scale: 0 });
    assert_eq!(Decimal::new(11106, 2), Decimal { units: 11106, scale: 2 });
    assert_eq!(Decimal::new(7, 0), Decimal { units: 7, scale: 0 });
    assert_eq!(Some(Decimal::new(11106000, 5)), Decimal::parse("111.06"));
}

#[test]
fn zero_is_zero() {
    assert_eq!(Decimal::zero(), Decimal { units: 0, scale: 0 });
    assert!(Decimal::zero().is_zero());
    assert!(Decimal { units: 0, scale: 4 }.is_zero());
    assert!(!Decimal { units: 1, scale: 4 }.is_zero());
}

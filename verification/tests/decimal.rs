use tout::decimal::{signed_decimal, unsigned_decimal};

#[test]
fn unsigned_decimal_spells_digits() {
    assert_eq!(unsigned_decimal(0), "0");
    assert_eq!(unsigned_decimal(7), "7");
    assert_eq!(unsigned_decimal(10), "10");
    assert_eq!(unsigned_decimal(1_000_000), "1000000");
    assert_eq!(unsigned_decimal(u128::MAX), u128::MAX.to_string());
}

#[test]
fn signed_decimal_spells_sign_and_digits() {
    assert_eq!(signed_decimal(0), "0");
    assert_eq!(signed_decimal(-1), "-1");
    assert_eq!(signed_decimal(-90), "-90");
    assert_eq!(signed_decimal(i128::MIN), i128::MIN.to_string());
    assert_eq!(signed_decimal(i128::MAX), i128::MAX.to_string());
}

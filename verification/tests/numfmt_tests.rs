use poloto::numfmt::{fmt_int, fmt_label, fmt_nat};

#[test]
fn decimal_naturals() {
    assert_eq!(fmt_nat(0), "0");
    assert_eq!(fmt_nat(7), "7");
    assert_eq!(fmt_nat(10), "10");
    assert_eq!(fmt_nat(90210), "90210");
}

#[test]
fn decimal_integers() {
    assert_eq!(fmt_int(-1), "-1");
    assert_eq!(fmt_int(-42), "-42");
    assert_eq!(fmt_int(123456789), "123456789");
}

#[test]
fn labels_of_fixed_point_values() {
    assert_eq!(fmt_label(0), "0");
    assert_eq!(fmt_label(2000), "2");
    assert_eq!(fmt_label(1500), "1.500");
    assert_eq!(fmt_label(-500), "-0.500");
    assert_eq!(fmt_label(-2000), "-2");
    assert_eq!(fmt_label(12345), "12.345");
}

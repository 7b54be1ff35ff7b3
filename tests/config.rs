use compressor::{parse_dimension, parse_ratio, Scale};

#[test]
fn dimension_is_read() {
    assert_eq!(parse_dimension("100x100"), Some(Scale::Dimension(100, 100)));
    assert_eq!(parse_dimension("640x480"), Some(Scale::Dimension(640, 480)));
    assert_eq!(parse_dimension("4294967295x0"), Some(Scale::Dimension(u32::MAX, 0)));
}

#[test]
fn dimension_with_letters_is_refused() {
    assert_eq!(parse_dimension("abcx100"), None);
}

#[test]
fn dimension_needs_two_components() {
    assert_eq!(parse_dimension("100"), None);
    assert_eq!(parse_dimension("100x"), None);
    assert_eq!(parse_dimension("x100"), None);
    assert_eq!(parse_dimension("1x2x3"), None);
    assert_eq!(parse_dimension(""), None);
}

#[test]
fn dimension_component_must_fit() {
    assert_eq!(parse_dimension("4294967296x1"), None);
    assert_eq!(parse_dimension("1x99999999999"), None);
}

#[test]
fn ratio_is_read_as_exact_fraction() {
    assert_eq!(parse_ratio("0.1"), Some(Scale::Ratio(1, 10)));
    assert_eq!(parse_ratio("0.25"), Some(Scale::Ratio(25, 100)));
    assert_eq!(parse_ratio("2"), Some(Scale::Ratio(2, 1)));
    assert_eq!(parse_ratio(".5"), Some(Scale::Ratio(5, 10)));
    assert_eq!(parse_ratio("1."), Some(Scale::Ratio(1, 1)));
}

#[test]
fn ratio_that_is_not_decimal_is_refused() {
    assert_eq!(parse_ratio("abc"), None);
    assert_eq!(parse_ratio("."), None);
    assert_eq!(parse_ratio("1.2.3"), None);
    assert_eq!(parse_ratio("-0.5"), None);
    assert_eq!(parse_ratio("0.0000000001"), None);
}

#[test]
fn zero_ratio_is_refused() {
    assert_eq!(parse_ratio("0"), None);
    assert_eq!(parse_ratio("0.00"), None);
    assert_eq!(parse_ratio(".0"), None);
    assert_eq!(parse_ratio("0.01"), Some(Scale::Ratio(1, 100)));
}

#[test]
fn plus_signs_are_read() {
    assert_eq!(parse_dimension("+100x+50"), Some(Scale::Dimension(100, 50)));
    assert_eq!(parse_dimension("++1x1"), None);
    assert_eq!(parse_dimension("1x+"), None);
    assert_eq!(parse_ratio("+0.5"), Some(Scale::Ratio(5, 10)));
    assert_eq!(parse_ratio("+2"), Some(Scale::Ratio(2, 1)));
    assert_eq!(parse_ratio("+.5"), Some(Scale::Ratio(5, 10)));
    assert_eq!(parse_ratio("0.+5"), None);
    assert_eq!(parse_ratio("+"), None);
    assert_eq!(parse_ratio("1e-3"), None);
}

#[test]
fn zero_dimension_is_read() {
    assert_eq!(parse_dimension("0x0"), Some(Scale::Dimension(0, 0)));
    assert_eq!(parse_dimension("01x1"), Some(Scale::Dimension(1, 1)));
}

use comfy_executor::number::try_parse_num;

#[test]
fn integers_and_decimals() {
    assert_eq!(try_parse_num("42"), Some(42));
    assert_eq!(try_parse_num("  7 "), Some(7));
    assert_eq!(try_parse_num("-7.9"), Some(-7));
    assert_eq!(try_parse_num("+3"), Some(3));
    assert_eq!(try_parse_num("1."), Some(1));
    assert_eq!(try_parse_num(".5"), Some(0));
    assert_eq!(try_parse_num("0.999"), Some(0));
}

#[test]
fn exponents() {
    assert_eq!(try_parse_num("1e3"), Some(1000));
    assert_eq!(try_parse_num("2.5E1"), Some(25));
    assert_eq!(try_parse_num("125e-2"), Some(1));
    assert_eq!(try_parse_num("1e-400"), Some(0));
    assert_eq!(try_parse_num("1e400"), Some(i64::MAX));
    assert_eq!(try_parse_num("-1e400"), Some(i64::MIN));
    assert_eq!(try_parse_num("0e99999999999999999999999"), Some(0));
}

#[test]
fn float_words_are_no_integers() {
    assert_eq!(try_parse_num("inf"), None);
    assert_eq!(try_parse_num("-Infinity"), None);
    assert_eq!(try_parse_num("NaN"), None);
    assert_eq!(try_parse_num(" nan "), None);
}

#[test]
fn saturation() {
    assert_eq!(try_parse_num("9223372036854775807"), Some(i64::MAX));
    assert_eq!(try_parse_num("99999999999999999999"), Some(i64::MAX));
    assert_eq!(try_parse_num("-9223372036854775808"), Some(i64::MIN));
}

#[test]
fn rejections() {
    for s in ["", " ", ".", "e5", "1e", "1e+", "1 2", "abc", "1.2.3", "--1", "infx", "\u{0663}"] {
        assert_eq!(try_parse_num(s), None, "{:?}", s);
    }
}

#[test]
fn agrees_with_float_parse() {
    for s in ["0", "12", "-0.5", "3.75", "1e2", "-2.5e-1", "17.0001"] {
        let expected = s.trim().parse::<f64>().ok().map(|v| v as i64);
        assert_eq!(try_parse_num(s), expected, "{:?}", s);
    }
}

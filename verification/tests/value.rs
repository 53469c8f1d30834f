use cnab_fixedwidth::{pow10, Value};

#[test]
fn as_i64_gives_the_number_of_a_numeric() {
    assert_eq!(Value::Numeric(341).as_i64(), Some(341));
    assert_eq!(Value::Numeric(0).as_i64(), Some(0));
    assert_eq!(Value::Numeric(-7).as_i64(), Some(-7));
    assert_eq!(Value::Numeric(i64::MAX).as_i64(), Some(i64::MAX));
    assert_eq!(Value::Numeric(i64::MIN).as_i64(), Some(i64::MIN));
}

#[test]
fn as_i64_gives_nothing_for_other_kinds() {
    assert_eq!(Value::Alpha("341".to_string()).as_i64(), None);
    assert_eq!(Value::Decimal { raw: 341, scale: 0 }.as_i64(), None);
}

#[test]
fn as_str_gives_the_text_of_an_alpha() {
    assert_eq!(Value::Alpha("BANCO TESTE".to_string()).as_str(), Some("BANCO TESTE"));
    assert_eq!(Value::Alpha(String::new()).as_str(), Some(""));
    assert_eq!(Value::Alpha(" ação ".to_string()).as_str(), Some(" ação "));
}

#[test]
fn as_str_gives_nothing_for_other_kinds() {
    assert_eq!(Value::Numeric(1).as_str(), None);
    assert_eq!(Value::Decimal { raw: 1, scale: 2 }.as_str(), None);
}

#[test]
fn as_decimal_gives_digits_and_scale() {
    assert_eq!(Value::Decimal { raw: 1234, scale: 2 }.as_decimal(), Some((1234, 2)));
    assert_eq!(Value::Decimal { raw: 0, scale: 255 }.as_decimal(), Some((0, 255)));
    assert_eq!(Value::Decimal { raw: -5, scale: 1 }.as_decimal(), Some((-5, 1)));
    assert_eq!(Value::Numeric(1234).as_decimal(), None);
    assert_eq!(Value::Alpha("12.34".to_string()).as_decimal(), None);
}

#[test]
fn duplicate_gives_an_equal_value() {
    for v in [
        Value::Alpha("nome".to_string()),
        Value::Alpha(String::new()),
        Value::Numeric(42),
        Value::Decimal { raw: 1234, scale: 2 },
    ] {
        assert_eq!(v.duplicate(), v);
    }
}

#[test]
fn pow10_is_the_power_of_ten() {
    assert_eq!(pow10(0), Some(1));
    assert_eq!(pow10(1), Some(10));
    assert_eq!(pow10(2), Some(100));
    for scale in 0..=18u8 {
        assert_eq!(pow10(scale), Some(10i64.pow(scale as u32)));
    }
    assert_eq!(pow10(18), Some(1_000_000_000_000_000_000));
}

#[test]
fn pow10_stops_where_sixty_four_bits_end() {
    for scale in 19..=255u8 {
        assert_eq!(pow10(scale), None);
        assert_eq!(10i64.checked_pow(scale as u32), None);
    }
}

#[test]
fn decimal_converts_to_a_float_by_its_factor() {
    let (raw, scale) = Value::Decimal { raw: 1234, scale: 2 }.as_decimal().unwrap();
    let number = raw as f64 / pow10(scale).unwrap() as f64;
    assert!((number - 12.34).abs() < 1e-12);
    let (raw, scale) = Value::Decimal { raw: 5, scale: 0 }.as_decimal().unwrap();
    assert_eq!(raw as f64 / pow10(scale).unwrap() as f64, 5.0);
}

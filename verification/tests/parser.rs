use cnab_fixedwidth::{
    coerce_field, parse_line, FieldKind, FieldPos, FieldSpec, FixedWidthError, Schema, Value,
};

fn alpha(name: &'static str, start: usize, end: usize) -> FieldSpec {
    FieldSpec { name, pos: FieldPos { start, end }, kind: FieldKind::Alpha }
}

fn numeric(name: &'static str, start: usize, end: usize) -> FieldSpec {
    FieldSpec { name, pos: FieldPos { start, end }, kind: FieldKind::Numeric }
}

fn decimal(name: &'static str, start: usize, end: usize, scale: u8) -> FieldSpec {
    FieldSpec { name, pos: FieldPos { start, end }, kind: FieldKind::Decimal { scale } }
}

fn text(s: &str) -> Value {
    Value::Alpha(s.to_string())
}

fn invalid(field: &'static str, snippet: &str) -> FixedWidthError {
    FixedWidthError::InvalidNumeric { field, snippet: snippet.to_string() }
}

#[test]
fn header_scenario_on_a_full_width_line() {
    let mut line = String::from("34100011");
    while line.len() < 102 {
        line.push(' ');
    }
    line.push_str("BANCO TESTE");
    while line.len() < 240 {
        line.push(' ');
    }
    assert_eq!(line.chars().count(), 240);
    let fields = vec![
        numeric("banco", 1, 3),
        numeric("lote", 4, 7),
        numeric("tipo", 8, 8),
        alpha("nome", 103, 113),
    ];
    let record = parse_line(&line, &fields).unwrap();
    assert_eq!(record.len(), 4);
    assert_eq!(record.get("banco"), Some(&Value::Numeric(341)));
    assert_eq!(record.get("lote"), Some(&Value::Numeric(1)));
    assert_eq!(record.get("tipo"), Some(&Value::Numeric(1)));
    assert_eq!(record.get("nome"), Some(&text("BANCO TESTE")));
}

#[test]
fn alpha_loses_padding_at_the_end_only() {
    let mut line = String::new();
    while line.len() < 102 {
        line.push('0');
    }
    line.push_str("BANCO TESTE     ");
    let record = parse_line(&line, &[alpha("nome", 103, 118)]).unwrap();
    assert_eq!(record.get("nome"), Some(&text("BANCO TESTE")));

    let record = parse_line("  ab  cd  ", &[alpha("x", 1, 10)]).unwrap();
    assert_eq!(record.get("x"), Some(&text("  ab  cd")));
    let record = parse_line("  ab  cd  ", &[alpha("x", 2, 6)]).unwrap();
    assert_eq!(record.get("x"), Some(&text(" ab")));
    let record = parse_line("     ", &[alpha("x", 1, 5)]).unwrap();
    assert_eq!(record.get("x"), Some(&text("")));
}

#[test]
fn line_end_is_set_aside() {
    let fields = [numeric("n", 1, 3), alpha("a", 4, 6)];
    for line in ["123abc", "123abc\n", "123abc\r\n", "123abc\r", "123abc\n\n\r\r\n"] {
        let record = parse_line(line, &fields).unwrap();
        assert_eq!(record.get("n"), Some(&Value::Numeric(123)));
        assert_eq!(record.get("a"), Some(&text("abc")));
    }
}

#[test]
fn line_end_does_not_count_as_length() {
    let fields = [alpha("a", 1, 4)];
    assert_eq!(
        parse_line("abc\n", &fields).err(),
        Some(FixedWidthError::LineTooShort { len: 3, needed: 4 })
    );
    assert_eq!(
        parse_line("abc\r\n", &fields).err(),
        Some(FixedWidthError::LineTooShort { len: 3, needed: 4 })
    );
    assert_eq!(
        parse_line("\r\n", &fields).err(),
        Some(FixedWidthError::LineTooShort { len: 0, needed: 4 })
    );
}

#[test]
fn only_the_end_of_the_line_is_stripped() {
    let record = parse_line("a\nb\rc\n", &[alpha("x", 1, 5)]).unwrap();
    assert_eq!(record.get("x"), Some(&text("a\nb\rc")));
    let record = parse_line("\n\nab\n", &[alpha("x", 1, 4)]).unwrap();
    assert_eq!(record.get("x"), Some(&text("\n\nab")));
    let record = parse_line("ab \t\n", &[alpha("x", 1, 4)]).unwrap();
    assert_eq!(record.get("x"), Some(&text("ab")));
}

#[test]
fn short_line_reports_the_first_field_out_of_reach() {
    let fields = [
        numeric("a", 1, 3),
        numeric("far", 20, 30),
        numeric("b", 4, 7),
        numeric("near", 9, 12),
    ];
    assert_eq!(
        parse_line("34100011", &fields).err(),
        Some(FixedWidthError::LineTooShort { len: 8, needed: 30 })
    );
    let fields = [
        numeric("a", 1, 3),
        numeric("near", 9, 12),
        numeric("far", 20, 30),
    ];
    assert_eq!(
        parse_line("34100011", &fields).err(),
        Some(FixedWidthError::LineTooShort { len: 8, needed: 12 })
    );
    assert_eq!(
        parse_line("34", &fields).err(),
        Some(FixedWidthError::LineTooShort { len: 2, needed: 3 })
    );
    assert_eq!(
        parse_line("", &fields).err(),
        Some(FixedWidthError::LineTooShort { len: 0, needed: 3 })
    );
}

#[test]
fn line_of_exactly_the_needed_length_is_long_enough() {
    let fields = [numeric("a", 1, 3), numeric("b", 4, 8)];
    assert!(parse_line("12345678", &fields).is_ok());
    assert_eq!(
        parse_line("1234567", &fields).err(),
        Some(FixedWidthError::LineTooShort { len: 7, needed: 8 })
    );
}

#[test]
fn an_earlier_bad_number_wins_over_a_later_short_field() {
    let fields = [numeric("a", 1, 3), numeric("far", 20, 30)];
    assert_eq!(parse_line("3x1", &fields).err(), Some(invalid("a", "3x1")));
}

#[test]
fn blank_numeric_is_zero() {
    let record = parse_line("      ", &[numeric("n", 1, 6)]).unwrap();
    assert_eq!(record.get("n"), Some(&Value::Numeric(0)));
    let record = parse_line(" ", &[numeric("n", 1, 1)]).unwrap();
    assert_eq!(record.get("n"), Some(&Value::Numeric(0)));
    let record = parse_line(" \t\u{a0}\u{3000} ", &[numeric("n", 1, 5)]).unwrap();
    assert_eq!(record.get("n"), Some(&Value::Numeric(0)));
}

#[test]
fn blank_decimal_is_zero_at_any_scale() {
    for scale in [0u8, 1, 2, 5, 18, 19, 255] {
        let record = parse_line("        ", &[decimal("d", 1, 8, scale)]).unwrap();
        assert_eq!(record.get("d"), Some(&Value::Decimal { raw: 0, scale }));
    }
}

#[test]
fn numeric_reads_digits() {
    let f = numeric("n", 1, 6);
    assert_eq!(coerce_field(&f, "341"), Ok(Value::Numeric(341)));
    assert_eq!(coerce_field(&f, "000341"), Ok(Value::Numeric(341)));
    assert_eq!(coerce_field(&f, "0"), Ok(Value::Numeric(0)));
    assert_eq!(coerce_field(&f, "000000"), Ok(Value::Numeric(0)));
    assert_eq!(coerce_field(&f, "  42"), Ok(Value::Numeric(42)));
    assert_eq!(coerce_field(&f, "42  "), Ok(Value::Numeric(42)));
    assert_eq!(coerce_field(&f, " 42 "), Ok(Value::Numeric(42)));
    assert_eq!(coerce_field(&f, "1234567890"), Ok(Value::Numeric(1234567890)));
    assert_eq!(coerce_field(&f, ""), Ok(Value::Numeric(0)));
}

#[test]
fn numeric_refuses_anything_but_digits() {
    let f = numeric("valor", 1, 6);
    for slice in [
        "12a4", "-12", "+12", "1 2", "1.2", "1,2", "0x10", "१२", "１２", "1\u{0}", "abc", "-", "1e3",
        " - ", "12\u{200b}",
    ] {
        assert_eq!(coerce_field(&f, slice), Err(invalid("valor", slice)), "slice {:?}", slice);
    }
}

#[test]
fn invalid_numeric_carries_the_untrimmed_slice() {
    let fields = [alpha("a", 1, 2), numeric("valor", 3, 8)];
    assert_eq!(parse_line("ab 12x  rest", &fields).err(), Some(invalid("valor", " 12x  ")));
    let fields = [decimal("taxa", 2, 5, 2)];
    assert_eq!(parse_line("0 1-2 0", &fields).err(), Some(invalid("taxa", " 1-2")));
}

#[test]
fn numeric_bounds_of_sixty_four_bits() {
    let f = numeric("n", 1, 30);
    assert_eq!(coerce_field(&f, "9223372036854775807"), Ok(Value::Numeric(i64::MAX)));
    assert_eq!(
        coerce_field(&f, "000000000009223372036854775807"),
        Ok(Value::Numeric(i64::MAX))
    );
    for slice in [
        "9223372036854775808",
        "9223372036854775810",
        "10000000000000000000",
        "18446744073709551615",
        "18446744073709551616",
        "99999999999999999999",
        "123456789012345678901234567890",
    ] {
        assert_eq!(coerce_field(&f, slice), Err(invalid("n", slice)), "slice {:?}", slice);
    }
    let d = decimal("d", 1, 30, 2);
    assert_eq!(
        coerce_field(&d, "9223372036854775807"),
        Ok(Value::Decimal { raw: i64::MAX, scale: 2 })
    );
    assert_eq!(
        coerce_field(&d, "9223372036854775808"),
        Err(invalid("d", "9223372036854775808"))
    );
}

#[test]
fn numeric_agrees_with_the_standard_parser() {
    let f = numeric("n", 1, 20);
    let mut slices: Vec<String> = Vec::new();
    for n in [0i64, 1, 9, 10, 99, 100, 341, 1234, 65535, 4294967296, i64::MAX - 1, i64::MAX] {
        slices.push(n.to_string());
        slices.push(format!("{:020}", n));
        slices.push(format!("{:>20}", n));
        slices.push(format!("{:<20}", n));
    }
    for n in [i64::MAX as u128 + 1, u64::MAX as u128, u64::MAX as u128 + 1, u128::MAX] {
        slices.push(n.to_string());
    }
    for slice in &slices {
        let trimmed = slice.trim();
        let expected = match trimmed.parse::<i64>() {
            Ok(n) => Ok(Value::Numeric(n)),
            Err(_) => Err(invalid("n", slice)),
        };
        assert_eq!(coerce_field(&f, slice), expected, "slice {:?}", slice);
    }
}

#[test]
fn decimal_keeps_digits_and_scale() {
    let record = parse_line("001234", &[decimal("valor", 1, 6, 2)]).unwrap();
    let value = record.get("valor").unwrap();
    assert_eq!(*value, Value::Decimal { raw: 1234, scale: 2 });
    assert_eq!(value.as_decimal(), Some((1234, 2)));
    let (raw, scale) = value.as_decimal().unwrap();
    let number = raw as f64 / 10f64.powi(scale as i32);
    assert!((number - 12.34).abs() < 1e-9);

    assert_eq!(
        coerce_field(&decimal("d", 1, 6, 0), "001234"),
        Ok(Value::Decimal { raw: 1234, scale: 0 })
    );
    assert_eq!(
        coerce_field(&decimal("d", 1, 6, 7), " 1234 "),
        Ok(Value::Decimal { raw: 1234, scale: 7 })
    );
    assert_eq!(
        coerce_field(&decimal("d", 1, 6, 2), "12.34"),
        Err(invalid("d", "12.34"))
    );
}

#[test]
fn coerce_field_differs_from_its_input() {
    assert_eq!(coerce_field(&alpha("a", 1, 4), "ab  "), Ok(text("ab")));
    assert_eq!(coerce_field(&alpha("a", 1, 4), "  ab"), Ok(text("  ab")));
    assert_eq!(coerce_field(&alpha("a", 1, 4), ""), Ok(text("")));
    assert_eq!(coerce_field(&alpha("a", 1, 4), "ab\u{2003}\u{a0}"), Ok(text("ab")));
}

#[test]
fn positions_count_characters() {
    let line = "ação  00042€uro";
    assert_eq!(line.chars().count(), 15);
    assert!(line.len() > 15);
    let fields = [
        alpha("nome", 1, 6),
        numeric("valor", 7, 11),
        alpha("moeda", 12, 15),
    ];
    let record = parse_line(line, &fields).unwrap();
    assert_eq!(record.get("nome"), Some(&text("ação")));
    assert_eq!(record.get("valor"), Some(&Value::Numeric(42)));
    assert_eq!(record.get("moeda"), Some(&text("€uro")));
    assert_eq!(
        parse_line(line, &[alpha("x", 10, 16)]).err(),
        Some(FixedWidthError::LineTooShort { len: 15, needed: 16 })
    );
}

#[test]
fn fields_are_read_in_any_order_and_may_leave_gaps() {
    let fields = [alpha("c", 9, 10), numeric("a", 1, 2), alpha("b", 4, 6)];
    let record = parse_line("12 abc  yz", &fields).unwrap();
    assert_eq!(record.len(), 3);
    assert_eq!(record.get("a"), Some(&Value::Numeric(12)));
    assert_eq!(record.get("b"), Some(&text("abc")));
    assert_eq!(record.get("c"), Some(&text("yz")));
    assert_eq!(record.get("d"), None);
    assert!(record.contains("a"));
    assert!(!record.contains("d"));
}

#[test]
fn no_fields_give_an_empty_record() {
    let record = parse_line("anything", &[]).unwrap();
    assert_eq!(record.len(), 0);
    assert_eq!(record.get("a"), None);
    let record = parse_line("", &[]).unwrap();
    assert_eq!(record.len(), 0);
}

#[test]
fn later_field_of_the_same_name_replaces_the_earlier() {
    let fields = [numeric("n", 1, 2), numeric("n", 3, 4)];
    let record = parse_line("1234", &fields).unwrap();
    assert_eq!(record.len(), 1);
    assert_eq!(record.get("n"), Some(&Value::Numeric(34)));
}

#[test]
fn first_failing_field_decides_the_error() {
    let fields = [numeric("a", 1, 2), numeric("b", 3, 4), numeric("c", 5, 6)];
    assert_eq!(parse_line("12x4y6", &fields).err(), Some(invalid("b", "x4")));
    assert_eq!(parse_line("1234y6", &fields).err(), Some(invalid("c", "y6")));
    assert_eq!(parse_line("z234y6", &fields).err(), Some(invalid("a", "z2")));
}

#[test]
fn round_trip_on_a_line_of_the_schema_width() {
    let fields = vec![
        numeric("banco", 1, 3),
        numeric("lote", 4, 7),
        alpha("nome", 8, 17),
        decimal("valor", 18, 25, 2),
        numeric("vazio", 26, 28),
    ];
    let schema = Schema::new(fields.clone()).unwrap();
    let line = "3410001BANCO X   00012345   ";
    assert_eq!(line.len(), 28);
    let record = schema.parse(line).unwrap();
    assert_eq!(record.len(), fields.len());
    for f in &fields {
        let slice = &line[f.pos.as_range()];
        match (f.kind, record.get(f.name).unwrap()) {
            (FieldKind::Alpha, Value::Alpha(s)) => assert_eq!(s, slice.trim_end()),
            (FieldKind::Numeric, Value::Numeric(n)) => {
                let digits = slice.trim();
                if digits.is_empty() {
                    assert_eq!(*n, 0);
                } else {
                    assert_eq!(format!("{:0width$}", n, width = digits.len()), digits);
                }
            }
            (FieldKind::Decimal { scale }, Value::Decimal { raw, scale: s }) => {
                assert_eq!(*s, scale);
                let digits = slice.trim();
                assert_eq!(format!("{:0width$}", raw, width = digits.len()), digits);
            }
            other => panic!("kind and value differ: {:?}", other),
        }
    }
    assert_eq!(record.get("banco"), Some(&Value::Numeric(341)));
    assert_eq!(record.get("lote"), Some(&Value::Numeric(1)));
    assert_eq!(record.get("nome"), Some(&text("BANCO X")));
    assert_eq!(record.get("valor"), Some(&Value::Decimal { raw: 12345, scale: 2 }));
    assert_eq!(record.get("vazio"), Some(&Value::Numeric(0)));
}

#[test]
fn white_space_is_what_the_standard_library_calls_so() {
    let a = alpha("a", 1, 2);
    let n = numeric("n", 1, 2);
    for code in 0..=0x10FFFFu32 {
        let c = match char::from_u32(code) {
            Some(c) => c,
            None => continue,
        };
        let mut after = String::from("x");
        after.push(c);
        let expected = if c.is_whitespace() { "x".to_string() } else { after.clone() };
        assert_eq!(coerce_field(&a, &after), Ok(Value::Alpha(expected)), "U+{:04X}", code);
        if code < 0x4000 {
            let mut before = String::new();
            before.push(c);
            before.push('7');
            let expected = if c.is_whitespace() {
                Ok(Value::Numeric(7))
            } else if c.is_ascii_digit() {
                Ok(Value::Numeric(code as i64 % 0x30 * 10 + 7))
            } else {
                Err(invalid("n", &before))
            };
            assert_eq!(coerce_field(&n, &before), expected, "U+{:04X}", code);
        }
    }
}

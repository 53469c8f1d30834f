use cnab_fixedwidth::{
    bind_record, parse_line, validate_schema, FieldKind, FieldPos, FieldSpec, FixedWidthError,
    FixedWidthParse, FixedWidthSpec, IntType, TargetField, TargetKind,
};

#[derive(Debug, PartialEq)]
struct Header {
    banco: u16,
    lote: u32,
    nome: String,
}

const HEADER_FIELDS: [FieldSpec; 3] = [
    FieldSpec { name: "banco", pos: FieldPos { start: 1, end: 3 }, kind: FieldKind::Numeric },
    FieldSpec { name: "lote", pos: FieldPos { start: 4, end: 7 }, kind: FieldKind::Numeric },
    FieldSpec { name: "nome", pos: FieldPos { start: 9, end: 19 }, kind: FieldKind::Alpha },
];

const HEADER_TARGETS: [TargetField; 3] = [
    TargetField { name: "banco", kind: TargetKind::Numeric(IntType::U16) },
    TargetField { name: "lote", kind: TargetKind::Numeric(IntType::U32) },
    TargetField { name: "nome", kind: TargetKind::Alpha },
];

impl FixedWidthSpec for Header {
    fn spec() -> &'static [FieldSpec] {
        &HEADER_FIELDS
    }
}

impl FixedWidthParse for Header {
    fn parse(line: &str) -> Result<Self, FixedWidthError> {
        let parsed = parse_line(line, Self::spec())?;
        let bound = bind_record(&parsed, &HEADER_TARGETS)?;
        Ok(Header {
            banco: bound[0].as_i64().unwrap() as u16,
            lote: bound[1].as_i64().unwrap() as u32,
            nome: bound[2].as_str().unwrap().to_string(),
        })
    }
}

#[test]
fn record_type_gives_its_layout() {
    let fields = Header::spec();
    assert_eq!(fields.len(), 3);
    assert_eq!(fields[0].name, "banco");
    assert_eq!(fields[2].pos, FieldPos { start: 9, end: 19 });
    assert_eq!(validate_schema(fields), Ok(()));
}

#[test]
fn record_type_is_built_from_a_line() {
    assert_eq!(
        Header::parse("3410001 BANCO TESTE\r\n"),
        Ok(Header { banco: 341, lote: 1, nome: "BANCO TESTE".to_string() })
    );
    assert_eq!(
        Header::parse("        BANCO      "),
        Ok(Header { banco: 0, lote: 0, nome: "BANCO".to_string() })
    );
}

#[test]
fn record_type_passes_errors_on() {
    assert_eq!(
        Header::parse("3410001"),
        Err(FixedWidthError::LineTooShort { len: 7, needed: 19 })
    );
    assert_eq!(
        Header::parse("34100x1 BANCO TESTE"),
        Err(FixedWidthError::InvalidNumeric { field: "lote", snippet: "00x1".to_string() })
    );
}

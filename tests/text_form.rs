use bitfield::container::Bitfield;
use bitfield::packed::Packed;
use bitfield::range::RangeExpr;
use bitfield::schema::SchemaError;
use bitfield::text::parse_decl;

fn compile(text: &str) -> Result<Bitfield, SchemaError> {
    Bitfield::parse(text.as_bytes())
}

#[test]
fn text_data_mask() {
    let l = compile("struct Bitfield: u8 {\n    f1: u8 @ 0..2,\n    f2: u8 @ 6..8,\n}").unwrap();
    assert_eq!(l.data_mask, 0xC3);
    assert_eq!(l.name, b"Bitfield".to_vec());
    assert_eq!(l.fields.len(), 2);
}

#[test]
fn text_bytes_scenario() {
    let l = compile("pub struct Regs: u16 { pub f1: u8 @ 0..4, f2: u8 @ 12..16 }").unwrap();
    let mut bf = Packed::new(l, 0);
    bf.set_byte(0, 0xFF);
    assert_eq!(bf.byte(0), 0x0F);
    assert_eq!(bf.data(), 0x000F);
    bf.set_byte(1, 0xFF);
    assert_eq!(bf.byte(1), 0xF0);
    assert_eq!(bf.data(), 0xF00F);
}

#[test]
fn text_transforms() {
    let text = "struct Bitfield: u8 {
        f1: u8 @ 0..2 => |v| 2 * v,
        f2: u8 @ 2..4 => |v| [0xAA, 0xBB, 0xCC, 0xDD][v as usize],
        f3: u8 @ 4..6 => |v| -> u32 { v as u32 * 0x01010101 },
    }";
    let d = parse_decl(text.as_bytes()).unwrap();
    assert_eq!(d.fields.len(), 3);
    assert!(d.fields[0].transform.as_ref().unwrap().output.is_none());
    assert!(d.fields[1].transform.as_ref().unwrap().output.is_none());
    assert_eq!(d.fields[2].transform.as_ref().unwrap().output, Some(b"u32".to_vec()));
    let l = compile(text).unwrap();
    assert_eq!(l.fields[0].return_type(), &b"u8".to_vec());
    assert_eq!(l.fields[2].return_type(), &b"u32".to_vec());
    let bf = Packed::new(l, 0xFF);
    assert_eq!(bf.get_with(0, |v| 2 * v), 6);
    assert_eq!(bf.get_with(1, |v| [0xAA, 0xBB, 0xCC, 0xDD][v as usize]), 0xDD);
    assert_eq!(bf.get_with(2, |v| v as u32 * 0x01010101), 0x0303_0303);
}

#[test]
fn text_ranges() {
    let d = parse_decl(b"struct S: u16 { a: u8 @ ..4, b: u8 @ 12.., c: u8 @ 4..=7, d: u16 @ .., e: bool @ ..=0 }").unwrap();
    let ranges: Vec<RangeExpr> = d.fields.iter().map(|f| f.range).collect();
    assert_eq!(ranges[0], RangeExpr { start: None, end: Some(4), closed: false });
    assert_eq!(ranges[1], RangeExpr { start: Some(12), end: None, closed: false });
    assert_eq!(ranges[2], RangeExpr { start: Some(4), end: Some(7), closed: true });
    assert_eq!(ranges[3], RangeExpr { start: None, end: None, closed: false });
    assert_eq!(ranges[4], RangeExpr { start: None, end: Some(0), closed: true });
    let l = compile("struct S: u16 { a: u8 @ ..4, b: u8 @ 12.., c: u8 @ 4..=7 }").unwrap();
    assert_eq!(l.data_mask, 0xF0FF);
}

#[test]
fn text_visibility() {
    let l = compile("pub(crate) struct V: u8 { pub(super) a: u8 @ 0..4, pub b: bool @ 7..8, c: u8 @ 4..5 }").unwrap();
    assert_eq!(l.data_mask, 0x9F);
    assert_eq!(l.fields[1].name, b"b".to_vec());
    assert_eq!(l.field_index(b"b"), Some(1));
    assert_eq!(l.field_index(b"c"), Some(2));
    assert_eq!(l.field_index(b"d"), None);
    assert_eq!(compile("pub(crate struct V: u8 {}").unwrap_err(), SchemaError::Syntax);
}

#[test]
fn text_empty_and_trailing_comma() {
    let l = compile("struct Empty: u32 {}").unwrap();
    assert_eq!(l.data_mask, 0);
    assert!(compile("struct One: u32 { a: u32 @ 0..32 }").is_ok());
    assert!(compile("struct One: u32 { a: u32 @ 0..32, }").is_ok());
}

#[test]
fn text_syntax_errors() {
    for text in [
        "",
        "struct",
        "enum E: u8 {}",
        "struct S u8 {}",
        "struct S: u8 { a u8 @ 0..1 }",
        "struct S: u8 { a: u8 0..1 }",
        "struct S: u8 { a: u8 @ 0-1 }",
        "struct S: u8 { a: u8 @ 0..1 b: u8 @ 1..2 }",
        "struct S: u8 { a: u8 @ 0..1,, }",
        "struct S: u8 { a: u8 @ 0..1 => v }",
        "struct S: u8 { a: u8 @ 0..1 => |v| }",
        "struct S: u8 { a: u8 @ 0..1 } extra",
        "struct S: u8 { a: u8 @ 0..99999999999999999999 }",
    ] {
        assert_eq!(compile(text).unwrap_err(), SchemaError::Syntax, "{text}");
    }
}

#[test]
fn text_schema_errors() {
    assert_eq!(compile("struct S: i8 {}").unwrap_err(), SchemaError::UnsupportedType);
    assert_eq!(compile("struct S: u8 { a: char @ 0..1 }").unwrap_err(), SchemaError::UnsupportedFieldType);
    assert_eq!(compile("struct S: u8 { a: u8 @ 4..2 }").unwrap_err(), SchemaError::InvalidRange);
    assert_eq!(compile("struct S: u8 { a: bool @ 0..2 }").unwrap_err(), SchemaError::InvalidRange);
    assert_eq!(compile("struct S: u8 { a: u8 @ 2..= }").unwrap_err(), SchemaError::MissingBound);
    assert_eq!(compile("struct S: u8 { a: u8 @ 0..4, a: u8 @ 4..8 }").unwrap_err(), SchemaError::DuplicateField);
}

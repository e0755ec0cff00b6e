use bitfield::container::{make_bitfield, Bitfield};
use bitfield::packed::Packed;
use bitfield::range::RangeExpr;
use bitfield::schema::{BitfieldDecl, FieldDecl, SchemaError, Transform};

fn span(start: u64, end: u64) -> RangeExpr {
    RangeExpr { start: Some(start), end: Some(end), closed: false }
}

fn field(name: &str, ty: &str, start: u64, end: u64) -> FieldDecl {
    FieldDecl {
        name: name.as_bytes().to_vec(),
        ty: ty.as_bytes().to_vec(),
        range: span(start, end),
        transform: None,
    }
}

fn piped(name: &str, ty: &str, start: u64, end: u64, output: Option<&str>) -> FieldDecl {
    FieldDecl {
        transform: Some(Transform { output: output.map(|o| o.as_bytes().to_vec()) }),
        ..field(name, ty, start, end)
    }
}

fn decl(ty: &str, fields: Vec<FieldDecl>) -> BitfieldDecl {
    BitfieldDecl { name: b"Bitfield".to_vec(), ty: ty.as_bytes().to_vec(), fields }
}

fn layout(ty: &str, fields: Vec<FieldDecl>) -> Bitfield {
    make_bitfield(&decl(ty, fields)).unwrap()
}

#[test]
fn data_mask() {
    let l = layout("u8", vec![field("f1", "u8", 0, 2), field("f2", "u8", 6, 8)]);
    assert_eq!(l.data_mask, 0x0C3);
    assert_eq!(Packed::new(l, 0).data_mask(), 0xC3);
}

#[test]
fn data() {
    let l = layout("u8", vec![field("f1", "u8", 0, 4)]);
    let mut bf = Packed::new(l, 0xFF);
    assert_eq!(bf.data(), 0x0F);
    bf.set_data(0x00);
    assert_eq!(bf.data(), 0x00);
    bf.set_data(0xF0);
    assert_eq!(bf.data(), 0x00);
    bf.set_data(0x0F);
    assert_eq!(bf.data(), 0x0F);
}

#[test]
fn bytes() {
    let l = layout("u16", vec![field("f1", "u8", 0, 4), field("f2", "u8", 12, 16)]);
    let mut bf = Packed::new(l, 0);
    bf.set_byte(0, 0xFF);
    assert_eq!(bf.byte(0), 0x0F);
    assert_eq!(bf.data(), 0x000F);
    bf.set_byte(1, 0xFF);
    assert_eq!(bf.byte(1), 0xF0);
    assert_eq!(bf.data(), 0xF00F);
}

#[test]
fn fields() {
    let l = layout(
        "u8",
        vec![field("f1", "u8", 0, 4), field("f2", "u8", 4, 8), field("f3", "u8", 0, 8)],
    );
    let mut bf = Packed::new(l, 0xFF);
    assert_eq!(bf.get(0), 0x0F);
    assert_eq!(bf.get(1), 0x0F);
    assert_eq!(bf.get(2), 0xFF);
    bf.set(2, 0xAB);
    assert_eq!(bf.get(0), 0x0B);
    assert_eq!(bf.get(1), 0x0A);
    bf.set(0, 0xD);
    bf.set(1, 0xC);
    assert_eq!(bf.get(2), 0xCD);
}

#[test]
fn types() {
    let l = layout(
        "u8",
        vec![
            field("f1", "bool", 0, 1),
            field("f2", "bool", 1, 2),
            field("f3", "bool", 2, 3),
            field("f4", "bool", 3, 4),
            field("f5", "u16", 4, 8),
        ],
    );
    let mut bf = Packed::new(l, 0);
    bf.set_flag(0, true);
    assert_eq!(bf.data(), 0x01);
    bf.set_flag(1, true);
    assert_eq!(bf.data(), 0x03);
    bf.set_flag(2, true);
    assert_eq!(bf.data(), 0x07);
    bf.set_flag(3, true);
    assert_eq!(bf.data(), 0x0F);
    bf.set(4, 0xFFFF);
    assert_eq!(bf.data(), 0xFF);
    assert!(bf.get_flag(0));
    bf.set_flag(0, false);
    assert!(!bf.get_flag(0));
    assert_eq!(bf.data(), 0xFE);
}

#[test]
fn pipes() {
    let l = layout(
        "u8",
        vec![
            piped("f1", "u8", 0, 2, None),
            piped("f2", "u8", 2, 4, None),
            piped("f3", "u8", 4, 6, Some("u32")),
        ],
    );
    assert_eq!(l.fields[0].return_type(), &b"u8".to_vec());
    assert_eq!(l.fields[2].return_type(), &b"u32".to_vec());
    let bf = Packed::new(l, 0xFF);
    assert_eq!(bf.get_with(0, |v| 2 * v), 0x06);
    assert_eq!(bf.get_with(1, |v| [0xAA, 0xBB, 0xCC, 0xDD][v as usize]), 0xDD);
    assert_eq!(bf.get_with(2, |v| v as u32 * 0x01010101), 0x0303_0303);
}

#[test]
fn traits() {
    let l = layout("u8", vec![field("f1", "u8", 0, 4)]);
    let bf = Packed::new(l.clone(), 0xFF);
    assert_eq!(u64::from(bf), 0x0F);
    let bf = Packed::new(l, 0xFF);
    assert_eq!(bf.data(), 0x0F);
}

#[test]
fn transform_applies_on_read_only() {
    let l = layout("u8", vec![piped("f1", "u8", 0, 4, None)]);
    let mut bf = Packed::new(l, 0);
    bf.set(0, 0x3);
    assert_eq!(bf.data(), 0x03);
    assert_eq!(bf.get(0), 0x3);
    assert_eq!(bf.get_with(0, |v| v * 10), 30);
    assert_eq!(bf.get_with(0, |v| v * 10), 30);
}

#[test]
fn masking_is_idempotent() {
    let l = layout("u16", vec![field("a", "u8", 1, 5), field("b", "u8", 9, 12)]);
    for raw in [0u64, 0xFFFF, 0x1234, 0xABCD, 0xFFFF_FFFF] {
        let once = Packed::new(l.clone(), raw).data();
        let twice = Packed::new(l.clone(), once).data();
        assert_eq!(once, twice);
        assert_eq!(once, raw & 0x0E1E);
    }
}

#[test]
fn field_round_trip_truncates() {
    let l = layout("u32", vec![field("a", "u16", 3, 13), field("b", "u32", 13, 32)]);
    let mut bf = Packed::new(l, 0xFFFF_FFFF);
    bf.set(0, 0x1_2345);
    assert_eq!(bf.get(0), 0x1_2345 & 0x3FF);
    assert_eq!(bf.get(1), 0x7FFFF);
    bf.set(1, 0);
    assert_eq!(bf.get(0), 0x345);
    assert_eq!(bf.data(), 0x345 << 3);
}

#[test]
fn bytes_rebuild_value() {
    let l = layout("u32", vec![field("a", "u8", 0, 6), field("b", "u16", 10, 26), field("c", "u8", 30, 32)]);
    let raw = 0xDEAD_BEEFu64 & l.data_mask;
    let mut bf = Packed::new(l, 0xFFFF_FFFF);
    for i in 0..bf.byte_count() {
        bf.set_byte(i, (raw >> (8 * i)) as u8);
    }
    assert_eq!(bf.data(), raw);
    assert_eq!(bf.byte_count(), 4);
}

#[test]
fn unclaimed_bits_stay_clear() {
    let l = layout("u8", vec![field("a", "u8", 0, 2), field("b", "u8", 5, 7)]);
    assert_eq!(l.data_mask, 0x63);
    let mut bf = Packed::new(l, 0xFF);
    bf.set(0, 0xFF);
    bf.set(1, 0xFF);
    bf.set_byte(0, 0xFF);
    bf.set_data(0xFF);
    assert_eq!(bf.data() & !0x63, 0);
    assert_eq!(bf.byte(0), 0x63);
}

#[test]
fn full_width_container() {
    let l = layout("u64", vec![field("all", "u64", 0, 64), field("top", "u8", 56, 64)]);
    assert_eq!(l.data_mask, u64::MAX);
    let mut bf = Packed::new(l, u64::MAX);
    assert_eq!(bf.get(0), u64::MAX);
    bf.set(1, 0x12);
    assert_eq!(bf.byte(7), 0x12);
    assert_eq!(bf.get(0), 0x12FF_FFFF_FFFF_FFFF);
}

#[test]
fn implicit_and_closed_bounds() {
    let l = layout(
        "u16",
        vec![
            FieldDecl { range: RangeExpr { start: None, end: Some(4), closed: false }, ..field("lo", "u8", 0, 0) },
            FieldDecl { range: RangeExpr { start: Some(12), end: None, closed: false }, ..field("hi", "u8", 0, 0) },
            FieldDecl { range: RangeExpr { start: Some(4), end: Some(7), closed: true }, ..field("mid", "u8", 0, 0) },
            FieldDecl { range: RangeExpr { start: None, end: None, closed: false }, ..field("all", "u16", 0, 0) },
        ],
    );
    assert_eq!((l.fields[0].start, l.fields[0].end), (0, 4));
    assert_eq!((l.fields[1].start, l.fields[1].end), (12, 16));
    assert_eq!((l.fields[2].start, l.fields[2].end), (4, 8));
    assert_eq!((l.fields[3].start, l.fields[3].end), (0, 16));
    assert_eq!(l.fields[2].mask(), 0xF);
    assert_eq!(l.fields[2].shift(), 4);
    assert_eq!(l.data_mask, 0xFFFF);
}

#[test]
fn unsupported_container_type() {
    let e = make_bitfield(&decl("i32", vec![field("f1", "u8", 0, 4)])).unwrap_err();
    assert_eq!(e, SchemaError::UnsupportedType);
    let e = make_bitfield(&decl("bool", vec![])).unwrap_err();
    assert_eq!(e, SchemaError::UnsupportedType);
}

#[test]
fn unsupported_field_type() {
    let e = make_bitfield(&decl("u8", vec![field("f1", "char", 0, 4)])).unwrap_err();
    assert_eq!(e, SchemaError::UnsupportedFieldType);
}

#[test]
fn invalid_ranges() {
    for f in [
        field("empty", "u8", 3, 3),
        field("reversed", "u8", 5, 2),
        field("past_end", "u8", 4, 9),
        field("too_wide", "bool", 0, 2),
    ] {
        assert_eq!(make_bitfield(&decl("u8", vec![f])).unwrap_err(), SchemaError::InvalidRange);
    }
    let closed = FieldDecl { range: RangeExpr { start: Some(0), end: Some(8), closed: true }, ..field("c", "u16", 0, 0) };
    assert_eq!(make_bitfield(&decl("u8", vec![closed])).unwrap_err(), SchemaError::InvalidRange);
}

#[test]
fn missing_bound() {
    let f = FieldDecl { range: RangeExpr { start: Some(2), end: None, closed: true }, ..field("f", "u8", 0, 0) };
    assert_eq!(make_bitfield(&decl("u8", vec![f])).unwrap_err(), SchemaError::MissingBound);
}

#[test]
fn duplicate_field() {
    let e = make_bitfield(&decl("u8", vec![field("f", "u8", 0, 4), field("f", "u8", 4, 8)])).unwrap_err();
    assert_eq!(e, SchemaError::DuplicateField);
}

#[test]
fn first_error_wins() {
    let e = make_bitfield(&decl(
        "u8",
        vec![field("a", "u8", 0, 4), field("a", "u8", 4, 8), field("b", "i8", 0, 1)],
    ))
    .unwrap_err();
    assert_eq!(e, SchemaError::DuplicateField);
    let e = make_bitfield(&decl(
        "u8",
        vec![field("a", "u8", 0, 9), field("a", "u8", 4, 8)],
    ))
    .unwrap_err();
    assert_eq!(e, SchemaError::InvalidRange);
}

#[test]
fn compiled_names_and_types() {
    let l = layout("usize", vec![field("flag", "bool", 3, 4)]);
    assert_eq!(l.name, b"Bitfield".to_vec());
    assert_eq!(l.fields[0].name, b"flag".to_vec());
    assert_eq!(l.fields[0].return_type(), &b"bool".to_vec());
    assert_eq!(l.data_mask, 0x8);
    let bf = Packed::new(l, 0xFF);
    assert_eq!(bf.byte_count(), std::mem::size_of::<usize>());
    assert!(bf.get_flag(0));
}

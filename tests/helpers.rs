use bitfield::arith;
use bitfield::bit_ops::BitOps;
use bitfield::minigrep::Config;
use bitfield::range::{parse_range, RangeExpr};
use bitfield::schema::{bytes_eq, ty_of, type_bits, type_size, SchemaError, Ty};

#[test]
fn main_one() {
    assert_eq!(arith::add(0, 1), 1);
}

#[test]
fn main_two() {
    assert_eq!(arith::add(0, 2), 2);
}

#[test]
fn lib() {
    assert_eq!(arith::sub(1, 1), 0);
}

#[test]
fn res() -> Result<(), String> {
    Ok(())
}

#[test]
fn lib_one() {
    assert_eq!(arith::sub(2, 1), 1);
}

#[test]
fn lib_two() {
    assert_eq!(arith::sub(3, 1), 2);
}

#[test]
fn bit_ops_u8() {
    let mut v = 0x00_u8;
    v.set_bits(0..8, 0xFF);
    assert_eq!(v, 0xFF);
    v.set_bits(2..6, 0x00);
    assert_eq!(v, 0xC3);
    assert!(v.is_set(0));
    assert!(!v.is_set(2));
    assert_eq!(v.bit(7), 1);
    v.set_bit(7, 0);
    assert_eq!(v, 0x43);
    assert_eq!(v.bits(0..2), 0x3);
    assert_eq!(u8::mask(8), 0xFF);
    assert_eq!(u8::mask(3), 0x07);
}

#[test]
fn bit_ops_u32() {
    let mut v = 0u32;
    v.set_bits(7..16, 0x1FF);
    assert_eq!(v, 0x0000_FF80);
    assert_eq!(v.bits(7..16), 0x1FF);
    assert_eq!(v.bits(1..31), 0x7FC0);
    v.set_bits(8..12, 0xF0);
    assert_eq!(v, 0x0000_F080);
    v.set_bit(31, 3);
    assert_eq!(v, 0x8000_F080);
    assert!(v.is_set(31));
    assert_eq!(u32::mask(32), u32::MAX);
    assert_eq!(u32::mask(1), 1);
}

#[test]
fn bit_ops_u64() {
    let mut v = u64::MAX;
    v.set_bits(60..64, 0x5);
    assert_eq!(v >> 60, 0x5);
    assert_eq!(v.bits(0..64), 0x5FFF_FFFF_FFFF_FFFF);
    assert_eq!(u64::mask(64), u64::MAX);
}

#[test]
fn element_types() {
    assert_eq!(ty_of(b"bool"), Some(Ty::Bool));
    assert_eq!(ty_of(b"u16"), Some(Ty::U16));
    assert_eq!(ty_of(b"usize"), Some(Ty::Usize));
    assert_eq!(ty_of(b"u128"), None);
    assert_eq!(ty_of(b""), None);
    assert_eq!(type_bits(Ty::Bool), 1);
    assert_eq!(type_bits(Ty::U32), 32);
    assert_eq!(type_size(Ty::U64), 8);
    assert_eq!(type_size(Ty::Bool), 1);
    assert_eq!(type_bits(Ty::Usize), usize::BITS as usize);
    assert!(bytes_eq(b"abc", b"abc"));
    assert!(!bytes_eq(b"abc", b"abd"));
    assert!(!bytes_eq(b"ab", b"abc"));
}

#[test]
fn range_resolution() {
    let r = |start, end, closed| RangeExpr { start, end, closed };
    assert_eq!(parse_range(&r(Some(2), Some(5), false), 8), Ok(2..5));
    assert_eq!(parse_range(&r(None, None, false), 16), Ok(0..16));
    assert_eq!(parse_range(&r(None, Some(3), true), 8), Ok(0..4));
    assert_eq!(parse_range(&r(Some(7), Some(7), true), 8), Ok(7..8));
    assert_eq!(parse_range(&r(Some(7), Some(8), true), 8), Err(SchemaError::InvalidRange));
    assert_eq!(parse_range(&r(Some(u64::MAX), Some(u64::MAX), true), 64), Err(SchemaError::InvalidRange));
    assert_eq!(parse_range(&r(Some(1), None, true), 8), Err(SchemaError::MissingBound));
    assert_eq!(parse_range(&r(Some(8), None, false), 8), Err(SchemaError::InvalidRange));
    assert_eq!(parse_range(&r(Some(0), Some(9), false), 8), Err(SchemaError::InvalidRange));
}

#[test]
fn config_build() {
    let args = |v: &[&str]| v.iter().map(|s| s.to_string()).collect::<Vec<String>>();
    let c = Config::build(&args(&["prog", "duct", "poem.txt", "extra"])).unwrap();
    assert_eq!(c.query, "duct");
    assert_eq!(c.filepath, "poem.txt");
    assert_eq!(Config::build(&args(&["prog"])).err(), Some("expected query string"));
    assert_eq!(Config::build(&args(&[])).err(), Some("expected query string"));
    assert_eq!(Config::build(&args(&["prog", "duct"])).err(), Some("expected filepath"));
}

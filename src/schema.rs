//! Element types, declarations as written, and the validation of a single field.
use crate::bit_ops::BitOps;
use crate::range::{parse_range, resolve, RangeExpr};
use vstd::prelude::*;

verus! {

/// The element types a container or a field may be declared with.
#[derive(PartialEq, Eq, Structural, Clone, Copy, Debug)]
pub enum Ty {
    Bool,
    U8,
    U16,
    U32,
    U64,
    Usize,
}

/// Why a declaration was rejected.
#[derive(PartialEq, Eq, Structural, Clone, Copy, Debug)]
pub enum SchemaError {
    /// The container's type is not an unsigned integer type.
    UnsupportedType,
    /// A field's type is neither `bool` nor an unsigned integer type.
    UnsupportedFieldType,
    /// A range is empty, reaches past the container, or is wider than its field's type.
    InvalidRange,
    /// A closed range (`..=`) without an upper bound.
    MissingBound,
    /// Two fields of one container share a name.
    DuplicateField,
    /// The text does not follow the declaration grammar.
    Syntax,
}

/// The spelling of a type's name, as ASCII bytes (`bool`, `u8`, `u16`, `u32`, `u64`, `usize`).
pub open spec fn ty_name(t: Ty) -> Seq<u8> {
    match t {
        Ty::Bool => seq![98u8, 111, 111, 108],
        Ty::U8 => seq![117u8, 56],
        Ty::U16 => seq![117u8, 49, 54],
        Ty::U32 => seq![117u8, 51, 50],
        Ty::U64 => seq![117u8, 54, 52],
        Ty::Usize => seq![117u8, 115, 105, 122, 101],
    }
}

/// The type that `name` spells, if any.
pub open spec fn parse_ty(name: Seq<u8>) -> Option<Ty> {
    if name == ty_name(Ty::Bool) {
        Some(Ty::Bool)
    } else if name == ty_name(Ty::U8) {
        Some(Ty::U8)
    } else if name == ty_name(Ty::U16) {
        Some(Ty::U16)
    } else if name == ty_name(Ty::U32) {
        Some(Ty::U32)
    } else if name == ty_name(Ty::U64) {
        Some(Ty::U64)
    } else if name == ty_name(Ty::Usize) {
        Some(Ty::Usize)
    } else {
        None
    }
}

/// Size in bytes of a value of the type.
pub open spec fn ty_size(t: Ty) -> nat {
    match t {
        Ty::Bool => 1,
        Ty::U8 => 1,
        Ty::U16 => 2,
        Ty::U32 => 4,
        Ty::U64 => 8,
        Ty::Usize => (usize::BITS / 8) as nat,
    }
}

/// Number of bits a value of the type carries: one for `bool`.
pub open spec fn ty_bits(t: Ty) -> nat {
    match t {
        Ty::Bool => 1,
        _ => 8 * ty_size(t),
    }
}

fn ty_name_bytes(t: Ty) -> (r: Vec<u8>)
    ensures
        r@ == ty_name(t),
{
    match t {
        Ty::Bool => vec![98u8, 111, 111, 108],
        Ty::U8 => vec![117u8, 56],
        Ty::U16 => vec![117u8, 49, 54],
        Ty::U32 => vec![117u8, 51, 50],
        Ty::U64 => vec![117u8, 54, 52],
        Ty::Usize => vec![117u8, 115, 105, 122, 101],
    }
}

/// Whether two byte strings are equal.
pub fn bytes_eq(a: &[u8], b: &[u8]) -> (r: bool)
    ensures
        r == (a@ == b@),
{
    if a.len() != b.len() {
        return false;
    }
    let mut i: usize = 0;
    while i < a.len()
        invariant
            a@.len() == b@.len(),
            i <= a@.len(),
            a@.subrange(0, i as int) == b@.subrange(0, i as int),
        decreases a@.len() - i,
    {
        if a[i] != b[i] {
            assert(a@[i as int] != b@[i as int]);
            return false;
        }
        assert(a@.subrange(0, i + 1) == a@.subrange(0, i as int).push(a@[i as int]));
        assert(b@.subrange(0, i + 1) == b@.subrange(0, i as int).push(b@[i as int]));
        i += 1;
    }
    assert(a@ == a@.subrange(0, a@.len() as int));
    assert(b@ == b@.subrange(0, b@.len() as int));
    true
}

/// Looks up the type that `name` spells.
pub fn ty_of(name: &[u8]) -> (r: Option<Ty>)
    ensures
        r == parse_ty(name@),
{
    let candidates = [Ty::Bool, Ty::U8, Ty::U16, Ty::U32, Ty::U64, Ty::Usize];
    let mut i: usize = 0;
    while i < 6
        invariant
            i <= 6,
            candidates@ == seq![Ty::Bool, Ty::U8, Ty::U16, Ty::U32, Ty::U64, Ty::Usize],
            forall|j: int| 0 <= j < i ==> name@ != ty_name(#[trigger] candidates@[j]),
        decreases 6 - i,
    {
        let t = candidates[i];
        let spelled = ty_name_bytes(t);
        if bytes_eq(name, spelled.as_slice()) {
            return Some(t);
        }
        i += 1;
    }
    assert(name@ != ty_name(candidates@[0]));
    assert(name@ != ty_name(candidates@[1]));
    assert(name@ != ty_name(candidates@[2]));
    assert(name@ != ty_name(candidates@[3]));
    assert(name@ != ty_name(candidates@[4]));
    assert(name@ != ty_name(candidates@[5]));
    None
}

/// Size in bytes of a value of the type.
pub fn type_size(t: Ty) -> (r: usize)
    ensures
        r == ty_size(t),
{
    match t {
        Ty::Bool => 1,
        Ty::U8 => 1,
        Ty::U16 => 2,
        Ty::U32 => 4,
        Ty::U64 => 8,
        Ty::Usize => (usize::BITS / 8) as usize,
    }
}

/// Number of bits a value of the type carries.
pub fn type_bits(t: Ty) -> (r: usize)
    ensures
        r == ty_bits(t),
        r <= 64,
{
    match t {
        Ty::Bool => 1,
        _ => 8 * type_size(t),
    }
}

/// A read-side transform declared on a field (`=> |v| -> T { .. }`). The compiler
/// reads only its declared output type; the function itself is supplied when the
/// field is read.
#[derive(Clone, Debug)]
pub struct Transform {
    /// The transform's declared output type, if it declares one.
    pub output: Option<Vec<u8>>,
}

/// A field as declared: `name: ty @ range [=> transform]`.
#[derive(Clone, Debug)]
pub struct FieldDecl {
    pub name: Vec<u8>,
    pub ty: Vec<u8>,
    pub range: RangeExpr,
    pub transform: Option<Transform>,
}

/// A container as declared: `struct name: ty { fields }`.
#[derive(Clone, Debug)]
pub struct BitfieldDecl {
    pub name: Vec<u8>,
    pub ty: Vec<u8>,
    pub fields: Vec<FieldDecl>,
}

/// A validated field: its bits are `[start, end)` within the container.
#[derive(Clone, Debug)]
pub struct Field {
    pub name: Vec<u8>,
    pub ty: Ty,
    pub start: usize,
    pub end: usize,
    /// The name of the type its reads produce: the transform's output type where
    /// one is declared, else the field's own type.
    pub ret: Vec<u8>,
}

/// The `size` lowest bits of a 64-bit word.
pub open spec fn low_mask(size: usize) -> u64 {
    <u64 as BitOps>::low_mask(size)
}

impl Field {
    /// The field fits a container of `width` bits, and its own type.
    pub open spec fn wf(&self, width: nat) -> bool {
        &&& self.start < self.end
        &&& self.end <= width
        &&& self.end - self.start <= ty_bits(self.ty)
    }

    /// The field's mask, shifted to its position in the container.
    pub open spec fn placed_mask(&self) -> u64 {
        low_mask((self.end - self.start) as usize) << self.start
    }

    /// The mask of the field's width, unshifted.
    pub open spec fn spec_mask(&self) -> u64 {
        low_mask((self.end - self.start) as usize)
    }
}

/// The name of the type that reads of the field declared by `d` produce.
pub open spec fn ret_name(d: FieldDecl) -> Seq<u8> {
    match d.transform {
        Some(t) => match t.output {
            Some(o) => o@,
            None => d.ty@,
        },
        None => d.ty@,
    }
}

/// Why the field declared by `d` cannot stand in a container of `width` bits, if it cannot.
pub open spec fn field_error(d: FieldDecl, width: nat) -> Option<SchemaError> {
    match parse_ty(d.ty@) {
        None => Some(SchemaError::UnsupportedFieldType),
        Some(t) => match resolve(d.range, width) {
            Err(e) => Some(e),
            Ok(r) => if r.1 - r.0 > ty_bits(t) {
                Some(SchemaError::InvalidRange)
            } else {
                None
            },
        },
    }
}

/// `f` is what the declaration `d` compiles to in a container of `width` bits.
pub open spec fn compiles_to(d: FieldDecl, width: nat, f: Field) -> bool {
    &&& field_error(d, width) is None
    &&& f.name@ == d.name@
    &&& parse_ty(d.ty@) == Some(f.ty)
    &&& resolve(d.range, width) == Ok::<(nat, nat), SchemaError>(
        (f.start as nat, f.end as nat),
    )
    &&& f.ret@ == ret_name(d)
}

fn copy_bytes(v: &Vec<u8>) -> (r: Vec<u8>)
    ensures
        r@ == v@,
{
    vstd::slice::slice_to_vec(v.as_slice())
}

impl Field {
    /// Validates the field declared by `decl` for a container of `width` bits: its type
    /// must be `bool` or unsigned, its range must resolve within the container, and
    /// the range may be no wider than the field's type.
    pub fn parse(decl: &FieldDecl, width: usize) -> (r: Result<Field, SchemaError>)
        requires
            width <= 64,
        ensures
            match r {
                Ok(f) => compiles_to(*decl, width as nat, f) && f.wf(width as nat),
                Err(e) => field_error(*decl, width as nat) == Some(e),
            },
    {
        let ty = match ty_of(decl.ty.as_slice()) {
            Some(t) => t,
            None => return Err(SchemaError::UnsupportedFieldType),
        };
        let range = parse_range(&decl.range, width)?;
        if range.end - range.start > type_bits(ty) {
            return Err(SchemaError::InvalidRange);
        }
        let ret = match &decl.transform {
            Some(t) => match &t.output {
                Some(o) => copy_bytes(o),
                None => copy_bytes(&decl.ty),
            },
            None => copy_bytes(&decl.ty),
        };
        Ok(Field { name: copy_bytes(&decl.name), ty, start: range.start, end: range.end, ret })
    }

    /// The mask of the field's width, `(1 << (end - start)) - 1`.
    pub fn mask(&self) -> (r: u64)
        requires
            self.wf(64),
        ensures
            r == self.spec_mask(),
    {
        u64::mask(self.end - self.start)
    }

    /// The field's position: its lowest bit.
    pub fn shift(&self) -> (r: u64)
        ensures
            r == self.start,
    {
        self.start as u64
    }

    /// The name of the type that reads of the field produce.
    pub fn return_type(&self) -> (r: &Vec<u8>)
        ensures
            r@ == self.ret@,
    {
        &self.ret
    }
}

} // verus!

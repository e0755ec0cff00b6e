//! Compilation of a container declaration into a validated layout.
use crate::schema::{
    bytes_eq, compiles_to, field_error, low_mask, parse_ty, ty_bits, ty_of, type_bits,
    BitfieldDecl, Field, FieldDecl, SchemaError, Ty,
};
use crate::text::{decl_at, decl_spelled, parse_decl};
use vstd::prelude::*;

verus! {

/// A validated container layout: its type, its fields in declaration order, and
/// the union of the bits that the fields claim.
#[derive(Clone, Debug)]
pub struct Bitfield {
    pub name: Vec<u8>,
    pub ty: Ty,
    pub fields: Vec<Field>,
    pub data_mask: u64,
}

/// The bits claimed by any of `fields`.
pub open spec fn mask_union(fields: Seq<Field>) -> u64
    decreases fields.len(),
{
    if fields.len() == 0 {
        0
    } else {
        mask_union(fields.drop_last()) | fields.last().placed_mask()
    }
}

/// The container type that `d` declares, if it names an unsigned integer type.
pub open spec fn container_ty(d: BitfieldDecl) -> Option<Ty> {
    match parse_ty(d.ty@) {
        Some(t) => if t == Ty::Bool {
            None
        } else {
            Some(t)
        },
        None => None,
    }
}

/// The first error among the field declarations `fs`, in order, for a container of
/// `width` bits: a field that cannot stand there, or a field whose name an earlier
/// field already has.
pub open spec fn fields_error(fs: Seq<FieldDecl>, width: nat) -> Option<SchemaError>
    decreases fs.len(),
{
    if fs.len() == 0 {
        None
    } else if fields_error(fs.drop_last(), width) is Some {
        fields_error(fs.drop_last(), width)
    } else if field_error(fs.last(), width) is Some {
        field_error(fs.last(), width)
    } else if exists|j: int| 0 <= j < fs.len() - 1 && (#[trigger] fs[j]).name@ == fs.last().name@ {
        Some(SchemaError::DuplicateField)
    } else {
        None
    }
}

/// Why the declaration `d` is rejected, if it is.
pub open spec fn decl_error(d: BitfieldDecl) -> Option<SchemaError> {
    match container_ty(d) {
        None => Some(SchemaError::UnsupportedType),
        Some(t) => fields_error(d.fields@, ty_bits(t)),
    }
}

impl Bitfield {
    /// Bits in the container.
    pub open spec fn width(&self) -> nat {
        ty_bits(self.ty)
    }

    /// Every field lies within the container and its own type, names are unique,
    /// and `data_mask` is the union of the fields' bits.
    pub open spec fn wf(&self) -> bool {
        &&& self.ty != Ty::Bool
        &&& forall|i: int| 0 <= i < self.fields.len() ==> (#[trigger] self.fields@[i]).wf(self.width())
        &&& forall|i: int, j: int|
            0 <= i < j < self.fields.len() ==> (#[trigger] self.fields@[i]).name@ != (#[trigger] self.fields@[j]).name@
        &&& self.data_mask == mask_union(self.fields@)
    }

    /// `self` is what the declaration `d` compiles to.
    pub open spec fn compiled_from(&self, d: BitfieldDecl) -> bool {
        &&& decl_error(d) is None
        &&& self.name@ == d.name@
        &&& container_ty(d) == Some(self.ty)
        &&& self.fields.len() == d.fields.len()
        &&& forall|i: int|
            0 <= i < d.fields.len() ==> compiles_to(#[trigger] d.fields@[i], self.width(), self.fields@[i])
    }
}

proof fn lemma_fields_error_prefix(fs: Seq<FieldDecl>, width: nat, k: int)
    requires
        0 <= k <= fs.len(),
        fields_error(fs.subrange(0, k), width) is Some,
    ensures
        fields_error(fs, width) == fields_error(fs.subrange(0, k), width),
    decreases fs.len(),
{
    if k < fs.len() {
        assert(fs.drop_last().subrange(0, k) == fs.subrange(0, k));
        lemma_fields_error_prefix(fs.drop_last(), width, k);
    } else {
        assert(fs.subrange(0, k) == fs);
    }
}

/// Compiles a container declaration: the container type must be unsigned, and each
/// field in turn must have a supported type, a range that resolves within the
/// container and within its own type, and a name no earlier field has.
pub fn make_bitfield(decl: &BitfieldDecl) -> (r: Result<Bitfield, SchemaError>)
    ensures
        match r {
            Ok(b) => b.compiled_from(*decl) && b.wf(),
            Err(e) => decl_error(*decl) == Some(e),
        },
{
    let ty = match ty_of(decl.ty.as_slice()) {
        Some(t) => t,
        None => return Err(SchemaError::UnsupportedType),
    };
    if ty == Ty::Bool {
        return Err(SchemaError::UnsupportedType);
    }
    let width = type_bits(ty);
    let ghost fs = decl.fields@;
    let mut fields: Vec<Field> = Vec::new();
    let mut data_mask: u64 = 0;
    let mut k: usize = 0;
    while k < decl.fields.len()
        invariant
            width == ty_bits(ty),
            width <= 64,
            container_ty(*decl) == Some(ty),
            fs == decl.fields@,
            k <= fs.len(),
            fields_error(fs.subrange(0, k as int), width as nat) is None,
            fields.len() == k,
            forall|i: int|
                0 <= i < k ==> compiles_to(#[trigger] fs[i], width as nat, fields@[i]),
            forall|i: int| 0 <= i < k ==> (#[trigger] fields@[i]).wf(width as nat),
            forall|i: int, j: int|
                0 <= i < j < k ==> (#[trigger] fields@[i]).name@ != (#[trigger] fields@[j]).name@,
            data_mask == mask_union(fields@),
        decreases fs.len() - k,
    {
        let ghost pre = fs.subrange(0, k as int);
        let ghost cur = fs.subrange(0, k + 1);
        assert(cur.drop_last() == pre);
        assert(cur.last() == fs[k as int]);
        let f = match Field::parse(&decl.fields[k], width) {
            Ok(f) => f,
            Err(e) => {
                proof {
                    lemma_fields_error_prefix(fs, width as nat, k + 1);
                }
                return Err(e);
            },
        };
        let mut j: usize = 0;
        while j < k
            invariant
                j <= k,
                width == ty_bits(ty),
                container_ty(*decl) == Some(ty),
                fs == decl.fields@,
                k < fs.len(),
                fields.len() == k,
                cur == fs.subrange(0, k + 1),
                compiles_to(fs[k as int], width as nat, f),
                cur.drop_last() == fs.subrange(0, k as int),
                cur.last() == fs[k as int],
                fields_error(fs.subrange(0, k as int), width as nat) is None,
                forall|i: int|
                    0 <= i < k ==> compiles_to(#[trigger] fs[i], width as nat, fields@[i]),
                f.name@ == fs[k as int].name@,
                forall|i: int| 0 <= i < j ==> (#[trigger] fields@[i]).name@ != f.name@,
            decreases k - j,
        {
            if bytes_eq(fields[j].name.as_slice(), f.name.as_slice()) {
                proof {
                    assert(compiles_to(fs[j as int], width as nat, fields@[j as int]));
                    assert(cur[j as int] == fs[j as int]);
                    assert(cur[j as int].name@ == cur.last().name@);
                    assert(fields_error(cur, width as nat) == Some(SchemaError::DuplicateField));
                    lemma_fields_error_prefix(fs, width as nat, k + 1);
                    assert(fs.subrange(0, fs.len() as int) == fs);
                }
                return Err(SchemaError::DuplicateField);
            }
            j += 1;
        }
        proof {
            if exists|j: int| 0 <= j < cur.len() - 1 && (#[trigger] cur[j]).name@ == cur.last().name@ {
                let j = choose|j: int| 0 <= j < cur.len() - 1 && (#[trigger] cur[j]).name@ == cur.last().name@;
                assert(cur[j] == fs[j]);
                assert(compiles_to(fs[j], width as nat, fields@[j]));
                assert(fields@[j].name@ != f.name@);
            }
        }
        let placed = f.mask() << f.start;
        let ghost old_fields = fields@;
        fields.push(f);
        assert(fields@.drop_last() == old_fields);
        data_mask = data_mask | placed;
        assert(fields@.last() == f);
        assert(placed == f.placed_mask());
        k += 1;
    }
    assert(fs.subrange(0, fs.len() as int) == fs);
    let b = Bitfield { name: vstd::slice::slice_to_vec(decl.name.as_slice()), ty, fields, data_mask };
    assert(decl_error(*decl) is None);
    assert(b.name@ == decl.name@);
    assert(b.wf());
    Ok(b)
}


proof fn lemma_subset_of_union(a: u64, b: u64, c: u64)
    by (bit_vector)
    requires
        a & !b == 0,
    ensures
        a & !(b | c) == 0,
{
}

proof fn lemma_in_union(b: u64, c: u64)
    by (bit_vector)
    ensures
        c & !(b | c) == 0,
{
}

proof fn lemma_union_of_subsets(a: u64, c: u64, m: u64)
    by (bit_vector)
    requires
        a & !m == 0,
        c & !m == 0,
    ensures
        (a | c) & !m == 0,
{
}

proof fn lemma_placed_within(start: usize, end: usize, width: usize)
    by (bit_vector)
    requires
        start < end <= width <= 64,
    ensures
        (low_mask((end - start) as usize) << start) & !low_mask(width) == 0,
{
}

/// Each field's bits are among the union's.
pub proof fn lemma_union_covers(fields: Seq<Field>, i: int)
    requires
        0 <= i < fields.len(),
    ensures
        fields[i].placed_mask() & !mask_union(fields) == 0,
    decreases fields.len(),
{
    let rest = fields.drop_last();
    let placed = fields.last().placed_mask();
    if i == fields.len() - 1 {
        lemma_in_union(mask_union(rest), placed);
    } else {
        lemma_union_covers(rest, i);
        assert(rest[i] == fields[i]);
        lemma_subset_of_union(fields[i].placed_mask(), mask_union(rest), placed);
    }
}

/// The union lies within the low `width` bits when every field does.
pub proof fn lemma_union_within(fields: Seq<Field>, width: usize)
    requires
        width <= 64,
        forall|i: int| 0 <= i < fields.len() ==> (#[trigger] fields[i]).wf(width as nat),
    ensures
        mask_union(fields) & !low_mask(width) == 0,
    decreases fields.len(),
{
    if fields.len() > 0 {
        let rest = fields.drop_last();
        assert forall|i: int| 0 <= i < rest.len() implies (#[trigger] rest[i]).wf(width as nat) by {
            assert(rest[i] == fields[i]);
        }
        lemma_union_within(rest, width);
        let f = fields.last();
        assert(f.wf(width as nat));
        lemma_placed_within(f.start, f.end, width);
        lemma_union_of_subsets(mask_union(rest), f.placed_mask(), low_mask(width));
    } else {
        assert(0u64 & !low_mask(width) == 0) by (bit_vector);
    }
}

impl Bitfield {
    /// The position of the field called `name`, if there is one.
    pub fn field_index(&self, name: &[u8]) -> (r: Option<usize>)
        ensures
            match r {
                Some(i) => i < self.fields.len() && self.fields@[i as int].name@ == name@,
                None => forall|i: int|
                    0 <= i < self.fields.len() ==> (#[trigger] self.fields@[i]).name@ != name@,
            },
    {
        let mut i: usize = 0;
        while i < self.fields.len()
            invariant
                i <= self.fields.len(),
                forall|j: int| 0 <= j < i ==> (#[trigger] self.fields@[j]).name@ != name@,
            decreases self.fields.len() - i,
        {
            if bytes_eq(self.fields[i].name.as_slice(), name) {
                return Some(i);
            }
            i += 1;
        }
        None
    }

    /// Compiles a container declaration from its text: `Syntax` where the text does not
    /// follow the grammar, else what `make_bitfield` gives for the declaration it holds.
    pub fn parse(text: &[u8]) -> (r: Result<Bitfield, SchemaError>)
        ensures
            decl_at(text@) is None ==> r == Err::<Bitfield, SchemaError>(SchemaError::Syntax),
            decl_at(text@) matches Some(m) ==> exists|d: BitfieldDecl|
                #[trigger] decl_spelled(text@, m, d) && match r {
                    Ok(b) => b.compiled_from(d) && b.wf(),
                    Err(e) => decl_error(d) == Some(e),
                },
    {
        let decl = match parse_decl(text) {
            Ok(d) => d,
            Err(e) => return Err(e),
        };
        let r = make_bitfield(&decl);
        assert(decl_spelled(text@, decl_at(text@)->Some_0, decl));
        r
    }
}

} // verus!

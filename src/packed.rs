//! Packed container values: whole-value, byte and field access under a layout.
use crate::bit_ops::BitOps;
use crate::container::{lemma_union_covers, Bitfield};
use crate::schema::{low_mask, ty_size, type_size, Field};
use vstd::prelude::*;

verus! {

/// The value that field `f` holds in `data`: bits `[f.start, f.end)`, moved down.
pub open spec fn field_value(data: u64, f: Field) -> u64 {
    <u64 as BitOps>::bits_of(data, f.start, f.end)
}

/// `data` with field `f` replaced by the low bits of `v`; other bits are kept.
pub open spec fn with_field(data: u64, f: Field, v: u64) -> u64 {
    <u64 as BitOps>::with_bits(data, f.start, f.end, v)
}

/// Byte `index` of `data`: bits `[8 * index, 8 * index + 8)`.
pub open spec fn byte_at(data: u64, index: usize) -> u8 {
    ((data >> (8 * index) as usize) & 0xFF) as u8
}

/// `data` with the bits of byte `index` that `data_mask` claims replaced by those of
/// `byte`; every other bit is kept.
pub open spec fn with_byte(data: u64, data_mask: u64, index: usize, byte: u8) -> u64 {
    let m = byte_at(data_mask, index);
    (data & !((m as u64) << (8 * index) as usize)) | (((byte & m) as u64) << (8 * index) as usize)
}

/// A container value under a layout. Only bits that some field claims are ever set.
#[derive(Clone, Debug)]
pub struct Packed {
    layout: Bitfield,
    data: u64,
}

proof fn lemma_masked(raw: u64, m: u64)
    by (bit_vector)
    ensures
        (raw & m) & !m == 0,
        (raw & m) & m == raw & m,
{
}

proof fn lemma_field_stays_claimed(data: u64, dm: u64, m: u64, start: usize, v: u64)
    by (bit_vector)
    requires
        data & !dm == 0,
        (m << start) & !dm == 0,
    ensures
        ((data & !(m << start)) | ((v & m) << start)) & !dm == 0,
{
}

proof fn lemma_byte_stays_claimed(data: u64, dm: u64, index: usize, byte: u8)
    by (bit_vector)
    requires
        data & !dm == 0,
        index < 8,
    ensures
        with_byte(data, dm, index, byte) & !dm == 0,
{
}

impl Packed {
    /// The layout the value is read under.
    pub closed spec fn spec_layout(&self) -> Bitfield {
        self.layout
    }

    /// The stored raw value.
    pub closed spec fn value(&self) -> u64 {
        self.data
    }

    /// The layout is valid and no bit outside its data mask is set.
    pub open spec fn wf(&self) -> bool {
        &&& self.spec_layout().wf()
        &&& self.value() & !self.spec_layout().data_mask == 0
    }

    /// The value of `layout` whose raw form is `raw` with every bit that no field
    /// claims cleared.
    pub fn new(layout: Bitfield, raw: u64) -> (r: Packed)
        requires
            layout.wf(),
        ensures
            r.wf(),
            r.spec_layout() == layout,
            r.value() == raw & layout.data_mask,
    {
        let data = raw & layout.data_mask;
        proof {
            lemma_masked(raw, layout.data_mask);
        }
        Packed { layout, data }
    }

    /// The layout the value is read under.
    pub fn layout(&self) -> (r: &Bitfield)
        ensures
            *r == self.spec_layout(),
    {
        &self.layout
    }

    /// The union of the bits that the fields claim.
    pub fn data_mask(&self) -> (r: u64)
        ensures
            r == self.spec_layout().data_mask,
    {
        self.layout.data_mask
    }

    /// The stored raw value.
    pub fn data(&self) -> (r: u64)
        ensures
            r == self.value(),
    {
        self.data
    }

    /// Stores `raw` with every bit that no field claims cleared.
    pub fn set_data(&mut self, raw: u64)
        requires
            old(self).wf(),
        ensures
            final(self).wf(),
            final(self).spec_layout() == old(self).spec_layout(),
            final(self).value() == raw & old(self).spec_layout().data_mask,
    {
        self.data = raw & self.layout.data_mask;
        proof {
            lemma_masked(raw, self.layout.data_mask);
        }
    }

    /// Number of bytes in the container.
    pub fn byte_count(&self) -> (r: usize)
        ensures
            r == ty_size(self.spec_layout().ty),
    {
        type_size(self.layout.ty)
    }

    /// Byte `index` of the stored value.
    pub fn byte(&self, index: usize) -> (r: u8)
        requires
            index < ty_size(self.spec_layout().ty),
        ensures
            r == byte_at(self.value(), index),
    {
        proof {
            assert(usize::BITS == 32 || usize::BITS == 64);
        }
        ((self.data >> (8 * index)) & 0xFF) as u8
    }

    /// Replaces the bits of byte `index` that some field claims by those of `byte`;
    /// the bits of `byte` that no field claims are dropped.
    pub fn set_byte(&mut self, index: usize, byte: u8)
        requires
            old(self).wf(),
            index < ty_size(old(self).spec_layout().ty),
        ensures
            final(self).wf(),
            final(self).spec_layout() == old(self).spec_layout(),
            final(self).value() == with_byte(
                old(self).value(),
                old(self).spec_layout().data_mask,
                index,
                byte,
            ),
    {
        proof {
            assert(usize::BITS == 32 || usize::BITS == 64);
            lemma_byte_stays_claimed(self.data, self.layout.data_mask, index, byte);
        }
        let shift = 8 * index;
        let m = ((self.layout.data_mask >> shift) & 0xFF) as u8;
        self.data = (self.data & !((m as u64) << shift)) | (((byte & m) as u64) << shift);
    }

    /// The value of field `index`, as an unsigned integer.
    pub fn get(&self, index: usize) -> (r: u64)
        requires
            self.wf(),
            index < self.spec_layout().fields.len(),
        ensures
            r == field_value(self.value(), self.spec_layout().fields@[index as int]),
    {
        let f = &self.layout.fields[index];
        assert(f.wf(self.layout.width()));
        self.data.bits(f.start..f.end)
    }

    /// The value of field `index` as a flag: set when any of its bits is.
    pub fn get_flag(&self, index: usize) -> (r: bool)
        requires
            self.wf(),
            index < self.spec_layout().fields.len(),
        ensures
            r == (field_value(self.value(), self.spec_layout().fields@[index as int]) != 0),
    {
        self.get(index) != 0
    }

    /// The value of field `index` with `transform` applied to it once.
    pub fn get_with<R, F: Fn(u64) -> R>(&self, index: usize, transform: F) -> (r: R)
        requires
            self.wf(),
            index < self.spec_layout().fields.len(),
            transform.requires(
                (field_value(self.value(), self.spec_layout().fields@[index as int]),),
            ),
        ensures
            transform.ensures(
                (field_value(self.value(), self.spec_layout().fields@[index as int]),),
                r,
            ),
    {
        let v = self.get(index);
        transform(v)
    }

    /// Sets field `index` to the low bits of `value` that fit it; higher bits are dropped.
    pub fn set(&mut self, index: usize, value: u64)
        requires
            old(self).wf(),
            index < old(self).spec_layout().fields.len(),
        ensures
            final(self).wf(),
            final(self).spec_layout() == old(self).spec_layout(),
            final(self).value() == with_field(
                old(self).value(),
                old(self).spec_layout().fields@[index as int],
                value,
            ),
    {
        let ghost fs = self.layout.fields@;
        let f = &self.layout.fields[index];
        let (start, end) = (f.start, f.end);
        proof {
            assert(fs[index as int].wf(self.layout.width()));
            lemma_union_covers(fs, index as int);
            lemma_field_stays_claimed(
                self.data,
                self.layout.data_mask,
                low_mask((end - start) as usize),
                start,
                value,
            );
        }
        self.data.set_bits(start..end, value);
    }

    /// Sets field `index` to one for `true` and to zero for `false`.
    pub fn set_flag(&mut self, index: usize, value: bool)
        requires
            old(self).wf(),
            index < old(self).spec_layout().fields.len(),
        ensures
            final(self).wf(),
            final(self).spec_layout() == old(self).spec_layout(),
            final(self).value() == with_field(
                old(self).value(),
                old(self).spec_layout().fields@[index as int],
                if value {
                    1
                } else {
                    0
                },
            ),
    {
        self.set(index, if value { 1 } else { 0 })
    }
}

impl From<Packed> for u64 {
    /// The stored raw value.
    fn from(p: Packed) -> (r: u64) {
        p.data
    }
}

impl vstd::std_specs::convert::FromSpecImpl<Packed> for u64 {
    open spec fn obeys_from_spec() -> bool {
        true
    }

    open spec fn from_spec(p: Packed) -> u64 {
        p.value()
    }
}

} // verus!

//! Properties that hold of every layout and every value.
use crate::bit_ops::BitOps;
use crate::container::{lemma_union_within, Bitfield};
use crate::packed::{byte_at, field_value, with_byte, with_field, Packed};
use crate::schema::{low_mask, ty_bits, ty_size, Field};
use vstd::prelude::*;

verus! {

/// Writes bytes `0 .. n` of `raw`, in order, into `data` with `with_byte`.
pub open spec fn write_bytes(data: u64, data_mask: u64, raw: u64, n: nat) -> u64
    decreases n,
{
    if n == 0 {
        data
    } else {
        with_byte(
            write_bytes(data, data_mask, raw, (n - 1) as nat),
            data_mask,
            (n - 1) as usize,
            byte_at(raw, (n - 1) as usize),
        )
    }
}

proof fn lemma_mask_twice(raw: u64, m: u64)
    by (bit_vector)
    ensures
        (raw & m) & m == raw & m,
{
}

/// Masking is idempotent: a value built from the raw form of a built value has that
/// same raw form.
pub proof fn law_new_idempotent(layout: Bitfield, raw: u64)
    requires
        layout.wf(),
    ensures
        (raw & layout.data_mask) & layout.data_mask == raw & layout.data_mask,
{
    lemma_mask_twice(raw, layout.data_mask);
}

proof fn lemma_bits_round_trip(data: u64, start: usize, end: usize, v: u64)
    by (bit_vector)
    requires
        start < end <= 64,
    ensures
        <u64 as BitOps>::bits_of(<u64 as BitOps>::with_bits(data, start, end, v), start, end)
            == v & low_mask((end - start) as usize),
{
}

/// Reading a field after setting it to `v` gives the low bits of `v` that fit the field.
pub proof fn law_field_round_trip(data: u64, f: Field, v: u64)
    requires
        f.wf(64),
    ensures
        field_value(with_field(data, f, v), f) == v & f.spec_mask(),
{
    lemma_bits_round_trip(data, f.start, f.end, v);
}

/// A transform is applied on reads only: what a transform given to a read after a
/// set receives is the low bits of the value set, not a transformed value.
pub proof fn law_transform_on_read<R, F: Fn(u64) -> R>(data: u64, f: Field, v: u64, t: F, r: R)
    requires
        f.wf(64),
        t.ensures((field_value(with_field(data, f, v), f),), r),
    ensures
        t.ensures((v & f.spec_mask(),), r),
{
    lemma_bits_round_trip(data, f.start, f.end, v);
}

proof fn lemma_byte_step(data: u64, dm: u64, raw: u64, k: usize, x: u64)
    by (bit_vector)
    requires
        k < 8,
        raw & !dm == 0,
        data & !dm == 0,
        x == (raw & low_mask((8 * k) as usize)) | (data & !low_mask((8 * k) as usize)),
    ensures
        with_byte(x, dm, k, byte_at(raw, k)) == (raw & low_mask((8 * k + 8) as usize)) | (data
            & !low_mask((8 * k + 8) as usize)),
{
}

proof fn lemma_write_bytes_prefix(data: u64, dm: u64, raw: u64, k: nat)
    requires
        k <= 8,
        raw & !dm == 0,
        data & !dm == 0,
    ensures
        write_bytes(data, dm, raw, k) == (raw & low_mask((8 * k) as usize)) | (data & !low_mask(
            (8 * k) as usize,
        )),
    decreases k,
{
    if k == 0 {
        assert((raw & low_mask(0)) | (data & !low_mask(0)) == data) by (bit_vector);
    } else {
        lemma_write_bytes_prefix(data, dm, raw, (k - 1) as nat);
        lemma_byte_step(data, dm, raw, (k - 1) as usize, write_bytes(data, dm, raw, (k - 1) as nat));
    }
}

proof fn lemma_all_bits_written(data: u64, dm: u64, raw: u64, l: u64)
    by (bit_vector)
    requires
        raw & !dm == 0,
        data & !dm == 0,
        dm & !l == 0,
    ensures
        (raw & l) | (data & !l) == raw,
{
}

/// Writing every byte of a raw value that lies within the data mask, in order, into
/// any value of the layout reproduces that raw value exactly.
pub proof fn law_bytes_rebuild(p: Packed, raw: u64)
    requires
        p.wf(),
        raw & !p.spec_layout().data_mask == 0,
    ensures
        write_bytes(p.value(), p.spec_layout().data_mask, raw, ty_size(p.spec_layout().ty))
            == raw,
{
    let l = p.spec_layout();
    let n = ty_size(l.ty);
    assert(usize::BITS == 32 || usize::BITS == 64);
    assert(n <= 8);
    assert(8 * n == ty_bits(l.ty));
    lemma_write_bytes_prefix(p.value(), l.data_mask, raw, n);
    lemma_union_within(l.fields@, (8 * n) as usize);
    lemma_all_bits_written(p.value(), l.data_mask, raw, low_mask((8 * n) as usize));
}

proof fn lemma_clear_bit(data: u64, dm: u64, bit: u64)
    by (bit_vector)
    requires
        data & !dm == 0,
        bit < 64,
        (dm >> bit) & 1 == 0,
    ensures
        (data >> bit) & 1 == 0,
{
}

/// A bit that no field claims is clear in every well-formed value, and `Packed`'s
/// constructor and mutators all return well-formed values: no setter can set such a bit.
pub proof fn law_unclaimed_bit_clear(p: Packed, bit: u64)
    requires
        p.wf(),
        bit < 64,
        (p.spec_layout().data_mask >> bit) & 1 == 0,
    ensures
        (p.value() >> bit) & 1 == 0,
{
    lemma_clear_bit(p.value(), p.spec_layout().data_mask, bit);
}

} // verus!

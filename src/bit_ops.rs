//! Single-word bit access: masks, single bits and bit ranges.
use std::ops::Range;
use vstd::prelude::*;

verus! {

/// Bit-level access to a fixed-width unsigned machine word.
///
/// Positions count from the least significant bit. A range `start..end` is
/// half-open and must be non-empty and lie within the word.
pub trait BitOps: Sized {
    /// Number of bits in the word.
    spec fn width() -> usize;

    /// The word whose `size` lowest bits are set and all others clear.
    spec fn low_mask(size: usize) -> Self;

    /// Whether bit `index` of `w` is set.
    spec fn bit_of(w: Self, index: usize) -> bool;

    /// Bits `[start, end)` of `w`, moved down to position 0.
    spec fn bits_of(w: Self, start: usize, end: usize) -> Self;

    /// `w` with bits `[start, end)` replaced by the low `end - start` bits of `value`.
    spec fn with_bits(w: Self, start: usize, end: usize, value: Self) -> Self;

    fn mask(size: usize) -> (r: Self)
        requires
            0 < size <= Self::width(),
        ensures
            r == Self::low_mask(size),
    ;

    fn is_set(&self, index: usize) -> (r: bool)
        requires
            index < Self::width(),
        ensures
            r == Self::bit_of(*self, index),
    ;

    fn bit(&self, index: usize) -> (r: Self)
        requires
            index < Self::width(),
        ensures
            r == Self::bits_of(*self, index, (index + 1) as usize),
    ;

    fn set_bit(&mut self, index: usize, value: Self)
        requires
            index < Self::width(),
        ensures
            *final(self) == Self::with_bits(*old(self), index, (index + 1) as usize, value),
    ;

    fn bits(&self, range: Range<usize>) -> (r: Self)
        requires
            range.start < range.end <= Self::width(),
        ensures
            r == Self::bits_of(*self, range.start, range.end),
    ;

    fn set_bits(&mut self, range: Range<usize>, value: Self)
        requires
            range.start < range.end <= Self::width(),
        ensures
            *final(self) == Self::with_bits(*old(self), range.start, range.end, value),
    ;
}

impl BitOps for u8 {
    open spec fn width() -> usize {
        8
    }

    open spec fn low_mask(size: usize) -> u8 {
        if size >= 8 {
            u8::MAX
        } else {
            ((1u8 << size) - 1) as u8
        }
    }

    open spec fn bit_of(w: u8, index: usize) -> bool {
        (w >> index) & 1 == 1
    }

    open spec fn bits_of(w: u8, start: usize, end: usize) -> u8 {
        (w >> start) & Self::low_mask((end - start) as usize)
    }

    open spec fn with_bits(w: u8, start: usize, end: usize, value: u8) -> u8 {
        let m = Self::low_mask((end - start) as usize);
        (w & !(m << start)) | ((value & m) << start)
    }

    fn mask(size: usize) -> (r: u8) {
        let shift: usize = 8 - size;
        let r = u8::MAX >> shift;
        assert(r == Self::low_mask(size)) by (bit_vector)
            requires
                0 < size <= 8,
                shift == 8 - size,
                r == u8::MAX >> shift,
        ;
        r
    }

    fn is_set(&self, index: usize) -> (r: bool) {
        let w = *self;
        assert((w & (1u8 << index) != 0) == ((w >> index) & 1 == 1)) by (bit_vector)
            requires
                index < 8,
        ;
        w & (1u8 << index) != 0
    }

    fn bit(&self, index: usize) -> (r: u8) {
        let w = *self;
        assert((w >> index) & 1 == (w >> index) & Self::low_mask(1)) by (bit_vector);
        (w >> index) & 1
    }

    fn set_bit(&mut self, index: usize, value: u8) {
        let w = *self;
        proof {
            assert(Self::low_mask(1) == 1) by (bit_vector);
        }
        *self = (w & !(1u8 << index)) | ((value & 1) << index);
    }

    fn bits(&self, range: Range<usize>) -> (r: u8) {
        let mask = Self::mask(range.end - range.start);
        (*self >> range.start) & mask
    }

    fn set_bits(&mut self, range: Range<usize>, value: u8) {
        let mask = Self::mask(range.end - range.start);
        *self = (*self & !(mask << range.start)) | ((value & mask) << range.start);
    }
}

impl BitOps for u32 {
    open spec fn width() -> usize {
        32
    }

    open spec fn low_mask(size: usize) -> u32 {
        if size >= 32 {
            u32::MAX
        } else {
            ((1u32 << size) - 1) as u32
        }
    }

    open spec fn bit_of(w: u32, index: usize) -> bool {
        (w >> index) & 1 == 1
    }

    open spec fn bits_of(w: u32, start: usize, end: usize) -> u32 {
        (w >> start) & Self::low_mask((end - start) as usize)
    }

    open spec fn with_bits(w: u32, start: usize, end: usize, value: u32) -> u32 {
        let m = Self::low_mask((end - start) as usize);
        (w & !(m << start)) | ((value & m) << start)
    }

    fn mask(size: usize) -> (r: u32) {
        let shift: usize = 32 - size;
        let r = u32::MAX >> shift;
        assert(r == Self::low_mask(size)) by (bit_vector)
            requires
                0 < size <= 32,
                shift == 32 - size,
                r == u32::MAX >> shift,
        ;
        r
    }

    fn is_set(&self, index: usize) -> (r: bool) {
        let w = *self;
        assert((w & (1u32 << index) != 0) == ((w >> index) & 1 == 1)) by (bit_vector)
            requires
                index < 32,
        ;
        w & (1u32 << index) != 0
    }

    fn bit(&self, index: usize) -> (r: u32) {
        let w = *self;
        assert((w >> index) & 1 == (w >> index) & Self::low_mask(1)) by (bit_vector);
        (w >> index) & 1
    }

    fn set_bit(&mut self, index: usize, value: u32) {
        let w = *self;
        proof {
            assert(Self::low_mask(1) == 1) by (bit_vector);
        }
        *self = (w & !(1u32 << index)) | ((value & 1) << index);
    }

    fn bits(&self, range: Range<usize>) -> (r: u32) {
        let mask = Self::mask(range.end - range.start);
        (*self >> range.start) & mask
    }

    fn set_bits(&mut self, range: Range<usize>, value: u32) {
        let mask = Self::mask(range.end - range.start);
        *self = (*self & !(mask << range.start)) | ((value & mask) << range.start);
    }
}

impl BitOps for u64 {
    open spec fn width() -> usize {
        64
    }

    open spec fn low_mask(size: usize) -> u64 {
        if size >= 64 {
            u64::MAX
        } else {
            ((1u64 << size) - 1) as u64
        }
    }

    open spec fn bit_of(w: u64, index: usize) -> bool {
        (w >> index) & 1 == 1
    }

    open spec fn bits_of(w: u64, start: usize, end: usize) -> u64 {
        (w >> start) & Self::low_mask((end - start) as usize)
    }

    open spec fn with_bits(w: u64, start: usize, end: usize, value: u64) -> u64 {
        let m = Self::low_mask((end - start) as usize);
        (w & !(m << start)) | ((value & m) << start)
    }

    fn mask(size: usize) -> (r: u64) {
        let shift: usize = 64 - size;
        let r = u64::MAX >> shift;
        assert(r == Self::low_mask(size)) by (bit_vector)
            requires
                0 < size <= 64,
                shift == 64 - size,
                r == u64::MAX >> shift,
        ;
        r
    }

    fn is_set(&self, index: usize) -> (r: bool) {
        let w = *self;
        assert((w & (1u64 << index) != 0) == ((w >> index) & 1 == 1)) by (bit_vector)
            requires
                index < 64,
        ;
        w & (1u64 << index) != 0
    }

    fn bit(&self, index: usize) -> (r: u64) {
        let w = *self;
        assert((w >> index) & 1 == (w >> index) & Self::low_mask(1)) by (bit_vector);
        (w >> index) & 1
    }

    fn set_bit(&mut self, index: usize, value: u64) {
        let w = *self;
        proof {
            assert(Self::low_mask(1) == 1) by (bit_vector);
        }
        *self = (w & !(1u64 << index)) | ((value & 1) << index);
    }

    fn bits(&self, range: Range<usize>) -> (r: u64) {
        let mask = Self::mask(range.end - range.start);
        (*self >> range.start) & mask
    }

    fn set_bits(&mut self, range: Range<usize>, value: u64) {
        let mask = Self::mask(range.end - range.start);
        *self = (*self & !(mask << range.start)) | ((value & mask) << range.start);
    }
}

} // verus!

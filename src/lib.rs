//! Bit-packed containers described by schemas.
//!
//! A container declaration names a fixed-width unsigned integer type and fields, each a
//! bit range with an element type and an optional read-side transform. `text` reads
//! the declaration from its textual form, `container` validates it into a layout, and
//! `packed` reads and writes values under that layout: whole, by byte, and by field.
//! `bit_ops` holds the single-word bit primitives the field accessors are built on.
use vstd::prelude::*;

pub mod arith;
pub mod bit_ops;
pub mod container;
pub mod laws;
pub mod minigrep;
pub mod packed;
pub mod range;
pub mod schema;
pub mod text;

verus! {

} // verus!

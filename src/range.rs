//! Resolution of a field's bit-range expression into a concrete `[start, end)` range.
use crate::schema::SchemaError;
use std::ops::Range;
use vstd::prelude::*;

verus! {

/// A bit-range expression as written in a declaration: `a..b`, `..b`, `a..`, `..`
/// (half-open) or `a..=b`, `..=b` (closed).
#[derive(PartialEq, Eq, Structural, Clone, Copy, Debug)]
pub struct RangeExpr {
    /// The lower bound, if written; it defaults to 0.
    pub start: Option<u64>,
    /// The upper bound, if written; it defaults to the largest end allowed.
    pub end: Option<u64>,
    /// Whether the upper bound is inclusive (`..=`).
    pub closed: bool,
}

/// The `[start, end)` range that `r` denotes when ends up to `max_end` are allowed,
/// or why it denotes none.
pub open spec fn resolve(r: RangeExpr, max_end: nat) -> Result<(nat, nat), SchemaError> {
    let start: nat = match r.start {
        Some(s) => s as nat,
        None => 0,
    };
    if r.closed && r.end is None {
        Err(SchemaError::MissingBound)
    } else {
        let end: nat = match r.end {
            Some(e) => if r.closed {
                e as nat + 1
            } else {
                e as nat
            },
            None => max_end,
        };
        if start < end && end <= max_end {
            Ok((start, end))
        } else {
            Err(SchemaError::InvalidRange)
        }
    }
}

/// Resolves `range` against the largest allowed end `max_end`: an omitted start is 0,
/// an omitted end is `max_end`, and a closed end is made exclusive by adding one.
/// The result must be non-empty and end at or below `max_end`.
pub fn parse_range(range: &RangeExpr, max_end: usize) -> (r: Result<Range<usize>, SchemaError>)
    ensures
        match r {
            Ok(x) => resolve(*range, max_end as nat) == Ok::<(nat, nat), SchemaError>(
                (x.start as nat, x.end as nat),
            ),
            Err(e) => resolve(*range, max_end as nat) == Err::<(nat, nat), SchemaError>(e),
        },
{
    let start: u64 = match range.start {
        Some(s) => s,
        None => 0,
    };
    let end: usize = match range.end {
        None => {
            if range.closed {
                return Err(SchemaError::MissingBound);
            }
            max_end
        },
        Some(e) => {
            if range.closed {
                if e >= max_end as u64 {
                    return Err(SchemaError::InvalidRange);
                }
                (e + 1) as usize
            } else {
                if e > max_end as u64 {
                    return Err(SchemaError::InvalidRange);
                }
                e as usize
            }
        },
    };
    if start >= end as u64 {
        return Err(SchemaError::InvalidRange);
    }
    Ok(Range { start: start as usize, end })
}

} // verus!

use vstd::prelude::*;
use crate::error::Error;

verus! {

/// A requested byte window within an object's body, in one of the four
/// canonical forms the store accepts.  A value of this type is always a
/// valid range; the raw wire form [`R2Range`] is validated by
/// [`Range::try_from`] before a request can carry it.
#[derive(Debug, Clone, Copy)]
pub enum Range {
    /// `length` bytes starting at `offset`.
    OffsetWithLength { offset: u32, length: u32 },
    /// All bytes from `offset`, or `length` bytes from it when given.
    OffsetWithOptionalLength { offset: u32, length: Option<u32> },
    /// The first `length` bytes, or from `offset` when given.
    OptionalOffsetWithLength { offset: Option<u32>, length: u32 },
    /// The final `suffix` bytes of the object.
    Suffix { suffix: u32 },
}

/// The wire form of a byte range: at most one of the canonical combinations
/// of `{offset, length, suffix}` may be populated.
#[derive(Debug, Clone, Copy)]
pub struct R2Range {
    pub offset: Option<u32>,
    pub length: Option<u32>,
    pub suffix: Option<u32>,
}

/// Whether a raw `{offset, length, suffix}` triple resolves to exactly one
/// canonical range form: a suffix excludes the other two fields, and at
/// least one field must be present.
pub open spec fn spec_raw_range_valid(offset: Option<u32>, length: Option<u32>, suffix: Option<u32>) -> bool {
    if suffix is Some {
        offset is None && length is None
    } else {
        offset is Some || length is Some
    }
}

/// The canonical range a valid raw triple resolves to.
pub open spec fn spec_range_of_raw(offset: Option<u32>, length: Option<u32>, suffix: Option<u32>) -> Range {
    match (offset, length, suffix) {
        (Some(offset), Some(length), None) => Range::OffsetWithLength { offset, length },
        (Some(offset), None, None) => Range::OffsetWithOptionalLength { offset, length: None },
        (None, Some(length), None) => Range::OptionalOffsetWithLength { offset: None, length },
        (_, _, Some(suffix)) => Range::Suffix { suffix },
        _ => Range::Suffix { suffix: 0 },
    }
}

/// The raw wire triple a canonical range encodes as.
pub open spec fn spec_raw_of_range(r: Range) -> (Option<u32>, Option<u32>, Option<u32>) {
    match r {
        Range::OffsetWithLength { offset, length } => (Some(offset), Some(length), None),
        Range::OffsetWithOptionalLength { offset, length } => (Some(offset), length, None),
        Range::OptionalOffsetWithLength { offset, length } => (offset, Some(length), None),
        Range::Suffix { suffix } => (None, None, Some(suffix)),
    }
}

impl Range {
    /// Validates a raw wire range.  Returns the canonical form when the
    /// triple populates exactly one legal combination, and
    /// `Err(Error::InvalidRange)` otherwise — in particular when a suffix is
    /// combined with an offset or a length, and when no field is set at all.
    pub fn try_from(val: R2Range) -> (r: Result<Range, Error>)
        ensures
            r is Ok <==> spec_raw_range_valid(val.offset, val.length, val.suffix),
            r is Ok ==> r->Ok_0 == spec_range_of_raw(val.offset, val.length, val.suffix),
            r is Err ==> r->Err_0 == Error::InvalidRange,
    {
        match (val.offset, val.length, val.suffix) {
            (Some(offset), Some(length), None) => Ok(Range::OffsetWithLength { offset, length }),
            (Some(offset), None, None) => Ok(Range::OffsetWithOptionalLength { offset, length: None }),
            (None, Some(length), None) => Ok(Range::OptionalOffsetWithLength { offset: None, length }),
            (None, None, Some(suffix)) => Ok(Range::Suffix { suffix }),
            _ => Err(Error::InvalidRange),
        }
    }

    /// Encodes the range back into its wire triple.
    pub fn to_raw(&self) -> (r: R2Range)
        ensures
            (r.offset, r.length, r.suffix) == spec_raw_of_range(*self),
    {
        match *self {
            Range::OffsetWithLength { offset, length } =>
                R2Range { offset: Some(offset), length: Some(length), suffix: None },
            Range::OffsetWithOptionalLength { offset, length } =>
                R2Range { offset: Some(offset), length, suffix: None },
            Range::OptionalOffsetWithLength { offset, length } =>
                R2Range { offset, length: Some(length), suffix: None },
            Range::Suffix { suffix } =>
                R2Range { offset: None, length: None, suffix: Some(suffix) },
        }
    }

    /// The half-open byte window `[start, end)` this range selects out of an
    /// object of `size` bytes.  Offsets beyond the object are clamped to its
    /// end, lengths are clamped to the available bytes, and a suffix longer
    /// than the object selects the whole object.
    pub open spec fn spec_window(&self, size: nat) -> (nat, nat) {
        match *self {
            Range::OffsetWithLength { offset, length } => {
                let start = if offset as nat <= size { offset as nat } else { size };
                let end = if start + length <= size { (start + length) as nat } else { size };
                (start, end)
            },
            Range::OffsetWithOptionalLength { offset, length } => {
                let start = if offset as nat <= size { offset as nat } else { size };
                let end = match length {
                    Some(l) => if start + l <= size { (start + l) as nat } else { size },
                    None => size,
                };
                (start, end)
            },
            Range::OptionalOffsetWithLength { offset, length } => {
                let start = match offset {
                    Some(o) => if o as nat <= size { o as nat } else { size },
                    None => 0,
                };
                let end = if start + length <= size { (start + length) as nat } else { size };
                (start, end)
            },
            Range::Suffix { suffix } => {
                let start = if suffix as nat <= size { (size - suffix) as nat } else { 0 };
                (start, size)
            },
        }
    }

    /// Computes the byte window selected from an object of `size` bytes.
    pub fn window(&self, size: usize) -> (w: (usize, usize))
        ensures
            (w.0 as nat, w.1 as nat) == self.spec_window(size as nat),
            w.0 <= w.1 <= size,
    {
        match *self {
            Range::OffsetWithLength { offset, length } => {
                let start = clamp_to(offset, size);
                let end = add_clamped(start, length, size);
                (start, end)
            },
            Range::OffsetWithOptionalLength { offset, length } => {
                let start = clamp_to(offset, size);
                let end = match length {
                    Some(l) => add_clamped(start, l, size),
                    None => size,
                };
                (start, end)
            },
            Range::OptionalOffsetWithLength { offset, length } => {
                let start = match offset {
                    Some(o) => clamp_to(o, size),
                    None => 0,
                };
                let end = add_clamped(start, length, size);
                (start, end)
            },
            Range::Suffix { suffix } => {
                let start = if (suffix as u64) <= (size as u64) { size - (suffix as usize) } else { 0 };
                (start, size)
            },
        }
    }
}

/// `v` clamped to at most `size`.
fn clamp_to(v: u32, size: usize) -> (r: usize)
    ensures
        r as nat == if v as nat <= size as nat { v as nat } else { size as nat },
{
    if (v as u64) <= (size as u64) {
        v as usize
    } else {
        size
    }
}

/// `start + add` clamped to at most `size`, assuming `start <= size`.
fn add_clamped(start: usize, add: u32, size: usize) -> (r: usize)
    requires
        start <= size,
    ensures
        r as nat == if start + add <= size { (start + add) as nat } else { size as nat },
{
    if (add as u64) <= (size - start) as u64 {
        start + (add as usize)
    } else {
        size
    }
}

} // verus!

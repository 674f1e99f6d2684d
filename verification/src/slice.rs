//! Slicing: realizing range bounds against a value's length, the checked and
//! unchecked slicing entry points, and the bit-manipulation fast path for
//! inlined content.

use vstd::prelude::*;

verus! {

use vstd::slice::slice_subrange;
use crate::ShortStr;
use crate::cover::{byte_of, cover_of_bytes, bytes_of_cover, slice_cover};

/// Range bounds over byte offsets, mirroring the range operator forms: the
/// full range, a lower bound, an exclusive or inclusive upper bound, and a
/// two-sided span.
#[derive(Clone, Copy, Debug)]
pub enum ByteBounds {
    /// `..`
    Full,
    /// `start..`
    From(usize),
    /// `..end`
    To(usize),
    /// `..=last`
    ToInclusive(usize),
    /// `start..end`
    Span(usize, usize),
    /// `start..=last`
    SpanInclusive(usize, usize),
}

impl ByteBounds {
    /// The realized inclusive start offset.
    pub open spec fn start_of(self) -> int {
        match self {
            ByteBounds::Full => 0,
            ByteBounds::From(a) => a as int,
            ByteBounds::To(_) => 0,
            ByteBounds::ToInclusive(_) => 0,
            ByteBounds::Span(a, _) => a as int,
            ByteBounds::SpanInclusive(a, _) => a as int,
        }
    }

    /// The realized exclusive end offset, against a value of length `len`.
    pub open spec fn end_of(self, len: int) -> int {
        match self {
            ByteBounds::Full => len,
            ByteBounds::From(_) => len,
            ByteBounds::To(b) => b as int,
            ByteBounds::ToInclusive(b) => b as int + 1,
            ByteBounds::Span(_, b) => b as int,
            ByteBounds::SpanInclusive(_, b) => b as int + 1,
        }
    }
}

/// The reason a checked slice is rejected.
#[derive(Clone, Copy, Debug, PartialEq, Eq)]
pub enum SliceError {
    /// The realized range runs backwards: its start is greater than its end.
    StartAfterEnd,
    /// The realized range ends beyond the value's length.
    EndOutOfBounds,
}

impl<'a> ShortStr<'a> {
    /// Realizes range bounds into a concrete `start..end` range, filling in
    /// the value's length where a bound is open. Performs no validity check.
    pub fn bounds_to_range(self, bounds: ByteBounds) -> (r: core::ops::Range<usize>)
        requires
            bounds matches ByteBounds::ToInclusive(b) ==> b < usize::MAX,
            bounds matches ByteBounds::SpanInclusive(_, b) ==> b < usize::MAX,
        ensures
            r.start == bounds.start_of(),
            r.end == bounds.end_of(self@.len() as int),
    {
        let start: usize = match bounds {
            ByteBounds::Full => 0,
            ByteBounds::From(a) => a,
            ByteBounds::To(_) => 0,
            ByteBounds::ToInclusive(_) => 0,
            ByteBounds::Span(a, _) => a,
            ByteBounds::SpanInclusive(a, _) => a,
        };
        let end: usize = match bounds {
            ByteBounds::Full => self.len(),
            ByteBounds::From(_) => self.len(),
            ByteBounds::To(b) => b,
            ByteBounds::ToInclusive(b) => b + 1,
            ByteBounds::Span(_, b) => b,
            ByteBounds::SpanInclusive(_, b) => b + 1,
        };
        start..end
    }

    /// Slices without validating the realized range against the value; the
    /// caller owes `start <= end <= len`. An empty range yields the canonical
    /// empty value, a full range the value itself; a facade is sliced through
    /// its borrowed view and re-canonicalized, and inlined content is sliced
    /// by bit manipulation on the covering integer, without a byte copy.
    pub fn slice_unchecked(self, bounds: ByteBounds) -> (r: Self)
        requires
            bounds.start_of() <= bounds.end_of(self@.len() as int) <= self@.len(),
        ensures
            r@ == self@.subrange(bounds.start_of(), bounds.end_of(self@.len() as int)),
            r@.len() == bounds.end_of(self@.len() as int) - bounds.start_of(),
            bounds.end_of(self@.len() as int) == bounds.start_of()
                ==> r.is_canonical_encoding_of(Seq::empty()),
            self@.len() > 0 && bounds.end_of(self@.len() as int) - bounds.start_of() == self@.len()
                ==> r == self,
            r == self || r.canonical(),
    {
        proof {
            use_type_invariant(self);
            match self.facade {
                Some(f) => assert(vstd::slice::spec_slice_len(f) == f@.len()),
                None => assert(self@.len() <= 15),
            }
        }
        let range = self.bounds_to_range(bounds);
        let start = range.start;
        let end = range.end;
        let ghost gstart = bounds.start_of();
        let ghost gend = bounds.end_of(self@.len() as int);
        if end - start == 0 {
            let r = Self::empty();
            proof {
                assert(r@ =~= self@.subrange(gstart, gend));
            }
            r
        } else if end - start == self.len() {
            proof {
                assert(self@.subrange(gstart, gend) =~= self@);
            }
            self
        } else {
            match self.facade {
                Some(f) => {
                    let r = Self::from_str(slice_subrange(f, start, end));
                    proof {
                        assert(r@ == self@.subrange(gstart, gend));
                    }
                    r
                },
                None => {
                    // The empty encoding has length 0, which the first branch
                    // already handled; only inlined content reaches here.
                    let x = cover_of_bytes(&self.data);
                    let y = slice_cover(x, start as u128, end as u128);
                    let data = bytes_of_cover(y);
                    let ghost n = gend - gstart;
                    proof {
                        assert(1 <= n <= 14);
                        assert(byte_of(y, 15) == n);
                        assert(data@[15] == n as u8);
                        assert forall|j: int| n <= j < 15 implies data@[j] == 0 by {
                            assert(byte_of(y, j as u128) == 0);
                        }
                        assert forall|j: int| 0 <= j < n implies data@[j] == self@[gstart + j] by {
                            let ju = j as u128;
                            assert(byte_of(y, ju) == byte_of(x, (start as u128 + ju) as u128));
                            assert(byte_of(x, (start + j) as u128) == self.buffer()[start + j]);
                        }
                    }
                    let r = ShortStr { data, facade: None };
                    proof {
                        assert(r@ =~= self@.subrange(gstart, gend));
                        assert(r.is_inlined_spec());
                    }
                    r
                },
            }
        }
    }

    /// Checked slicing: validates the realized range against the value and
    /// rejects it cleanly when it runs backwards or past the end, for every
    /// variant. A backwards range is reported ahead of an out-of-bounds end.
    /// On success this is [`ShortStr::slice_unchecked`].
    pub fn slice(self, bounds: ByteBounds) -> (r: Result<Self, SliceError>)
        ensures
            r is Err <==> !(bounds.start_of() <= bounds.end_of(self@.len() as int)
                <= self@.len()),
            r matches Err(e) ==> (e is StartAfterEnd <==> bounds.start_of() > bounds.end_of(
                self@.len() as int,
            )),
            r matches Err(e) ==> (e is EndOutOfBounds <==> (bounds.start_of() <= bounds.end_of(
                self@.len() as int,
            ) && bounds.end_of(self@.len() as int) > self@.len())),
            r matches Ok(s) ==> s@ == self@.subrange(
                bounds.start_of(),
                bounds.end_of(self@.len() as int),
            ),
            r matches Ok(s) ==> s@.len() == bounds.end_of(self@.len() as int) - bounds.start_of(),
            r matches Ok(s) ==> (bounds.end_of(self@.len() as int) == bounds.start_of()
                ==> s.is_canonical_encoding_of(Seq::empty())),
            r matches Ok(s) ==> (self@.len() > 0 && bounds.end_of(self@.len() as int)
                - bounds.start_of() == self@.len() ==> s == self),
            r matches Ok(s) ==> (s == self || s.canonical()),
    {
        let len = self.len();
        match bounds {
            ByteBounds::ToInclusive(b) => {
                if b >= len {
                    return Err(SliceError::EndOutOfBounds);
                }
            },
            ByteBounds::SpanInclusive(a, b) => {
                if a >= 1 && a - 1 > b {
                    return Err(SliceError::StartAfterEnd);
                }
                if b >= len {
                    return Err(SliceError::EndOutOfBounds);
                }
            },
            _ => {},
        }
        let range = self.bounds_to_range(bounds);
        if range.start > range.end {
            return Err(SliceError::StartAfterEnd);
        }
        if range.end > len {
            return Err(SliceError::EndOutOfBounds);
        }
        Ok(self.slice_unchecked(bounds))
    }
}

} // verus!

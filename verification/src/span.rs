//! Source locations as plain byte-offset ranges.

use vstd::prelude::*;

verus! {

/// A region of source text: `len` positions starting at `offset`, half-open.
#[derive(Clone, Copy, Debug, PartialEq, Eq, Structural)]
pub struct Span {
    /// Index of the first position covered by this span.
    pub offset: usize,
    /// Number of positions covered.
    pub len: usize,
}

/// The smallest span enclosing both arguments, as a function.
pub open spec fn spec_combine(a: Span, b: Span) -> Span {
    let offset = if a.offset <= b.offset {
        a.offset
    } else {
        b.offset
    };
    let end = if a.offset + a.len >= b.offset + b.len {
        a.offset + a.len
    } else {
        b.offset + b.len
    };
    Span { offset, len: (end - offset) as usize }
}

impl Span {
    /// One past the last position covered by this span.
    pub open spec fn end(self) -> int {
        self.offset + self.len
    }

    /// Create a span from its offset and length.
    pub fn new(offset: usize, len: usize) -> (s: Span)
        ensures
            s == (Span { offset, len }),
    {
        Span { offset, len }
    }

    /// The smallest span enclosing both `self` and `other`.
    pub fn combine(&self, other: &Span) -> (r: Span)
        requires
            self.offset + self.len <= usize::MAX,
            other.offset + other.len <= usize::MAX,
        ensures
            r == spec_combine(*self, *other),
            r.offset == if self.offset <= other.offset {
                self.offset as int
            } else {
                other.offset as int
            },
            r.end() == if self.end() >= other.end() {
                self.end()
            } else {
                other.end()
            },
    {
        let offset = if self.offset <= other.offset { self.offset } else { other.offset };
        let self_end = self.offset + self.len;
        let other_end = other.offset + other.len;
        let end = if self_end >= other_end { self_end } else { other_end };
        Span { offset, len: end - offset }
    }

    /// The zero-width span immediately after `self`, used for synthetic
    /// end-of-file locations.
    pub fn increment(&self) -> (r: Span)
        requires
            self.offset + self.len <= usize::MAX,
        ensures
            r.offset == self.end(),
            r.len == 0,
    {
        Span { offset: self.offset + self.len, len: 0 }
    }
}

} // verus!

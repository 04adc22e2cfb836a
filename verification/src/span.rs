//! Byte ranges in the source text.
use vstd::prelude::*;

verus! {

/// Range of bytes in a source file: `start` is included, `end` excluded.
///
/// The operations below are those the parser needs, each a line or two of
/// arithmetic on the two bounds.
#[derive(Clone, Copy, Debug, PartialEq, Eq, Structural)]
pub struct Span {
    /// Start byte (included).
    pub start: usize,
    /// End byte (excluded).
    pub end: usize,
}

/// The smaller of two positions.
pub open spec fn min_pos(a: usize, b: usize) -> usize {
    if a <= b { a } else { b }
}

/// The larger of two positions.
pub open spec fn max_pos(a: usize, b: usize) -> usize {
    if a >= b { a } else { b }
}

impl Span {
    /// The span with the given bounds, where an `end` below `start` is moved up to `start`.
    pub open spec fn spec_new(start: usize, end: usize) -> Span {
        Span { start, end: max_pos(start, end) }
    }

    /// The smallest span that covers both spans and everything in between.
    pub open spec fn spec_union(self, other: Span) -> Span {
        Span { start: min_pos(self.start, other.start), end: max_pos(self.end, other.end) }
    }

    /// The empty span located at the end of this one.
    pub open spec fn spec_next(self) -> Span {
        Span { start: self.end, end: self.end }
    }

    /// Creates a span from its bounds; an `end` below `start` is replaced by `start`.
    pub fn new(start: usize, end: usize) -> (s: Span)
        ensures
            s == Span::spec_new(start, end),
    {
        Span { start, end: if start >= end { start } else { end } }
    }

    /// Computes the union of two spans.
    pub fn union(&self, other: Span) -> (s: Span)
        ensures
            s == self.spec_union(other),
    {
        Span {
            start: if self.start <= other.start { self.start } else { other.start },
            end: if self.end >= other.end { self.end } else { other.end },
        }
    }

    /// Extends this span so that it covers `other` too (in-place union).
    pub fn append(&mut self, other: Span)
        ensures
            *final(self) == old(self).spec_union(other),
    {
        *self = self.union(other);
    }

    /// The empty span starting at the end of this one.
    pub fn next(&self) -> (s: Span)
        ensures
            s == self.spec_next(),
    {
        Span { start: self.end, end: self.end }
    }
}

} // verus!

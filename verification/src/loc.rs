//! Source locations: half-open ranges of byte offsets.

use std::ops::Range;
use vstd::prelude::*;

verus! {

/// A half-open range `start..end` of byte offsets into a source text.
#[derive(Debug, Clone, Copy, PartialEq, Eq, Hash, Structural)]
pub struct Loc {
    pub start: usize,
    pub end: usize,
}

impl Loc {
    /// A location is well formed when it does not end before it starts.
    pub open spec fn wf(self) -> bool {
        self.start <= self.end
    }

    /// The location is well formed and lies inside a text of `len` bytes.
    pub open spec fn within(self, len: int) -> bool {
        self.start <= self.end <= len
    }

    /// The smallest location that covers both `self` and `other`.
    pub open spec fn spec_join(self, other: Loc) -> Loc {
        Loc {
            start: if self.start <= other.start { self.start } else { other.start },
            end: if self.end >= other.end { self.end } else { other.end },
        }
    }

    /// The location of a range of byte offsets that does not end before it
    /// starts.
    pub fn new(byte_range: Range<usize>) -> (loc: Loc)
        requires
            byte_range.start <= byte_range.end,
        ensures
            loc.start == byte_range.start,
            loc.end == byte_range.end,
            loc.wf(),
    {
        Loc { start: byte_range.start, end: byte_range.end }
    }

    /// The offset at which the location starts.
    pub fn start(&self) -> (start: usize)
        ensures
            start == self.start,
    {
        self.start
    }

    /// The offset behind the last byte of the location.
    pub fn end(&self) -> (end: usize)
        ensures
            end == self.end,
    {
        self.end
    }

    /// The location as a range of byte offsets.
    pub fn range(&self) -> (range: Range<usize>)
        ensures
            range.start == self.start,
            range.end == self.end,
    {
        self.start..self.end
    }

    /// Union of two locations: from the smaller start to the larger end.
    pub fn join(&self, other: &Loc) -> (joined: Loc)
        ensures
            joined == self.spec_join(*other),
            self.wf() || other.wf() ==> joined.wf(),
    {
        let start = if self.start <= other.start { self.start } else { other.start };
        let end = if self.end >= other.end { self.end } else { other.end };
        Loc { start, end }
    }
}

impl Default for Loc {
    /// The empty location at the start of a text.
    fn default() -> (loc: Loc)
        ensures
            loc.start == 0,
            loc.end == 0,
    {
        Loc { start: 0, end: 0 }
    }
}

/// Joining is commutative.
pub proof fn lemma_join_commutes(a: Loc, b: Loc)
    ensures
        a.spec_join(b) == b.spec_join(a),
{
}

/// Joining is associative.
pub proof fn lemma_join_associates(a: Loc, b: Loc, c: Loc)
    ensures
        a.spec_join(b).spec_join(c) == a.spec_join(b.spec_join(c)),
{
}

/// The join of two locations covers each of them.
pub proof fn lemma_join_covers(a: Loc, b: Loc)
    ensures
        a.spec_join(b).start <= a.start,
        a.spec_join(b).start <= b.start,
        a.end <= a.spec_join(b).end,
        b.end <= a.spec_join(b).end,
{
}

} // verus!

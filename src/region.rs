use vstd::prelude::*;

verus! {

/// True when the half-open ranges `[s1, s1 + l1)` and `[s2, s2 + l2)` share at
/// least one position. An empty range shares none.
pub open spec fn ranges_overlap(s1: int, l1: int, s2: int, l2: int) -> bool {
    &&& l1 > 0
    &&& l2 > 0
    &&& s1 < s2 + l2
    &&& s2 < s1 + l1
}

/// A contiguous half-open byte range `[start, start + len)` of a buffer.
#[derive(Debug, Clone, Copy, PartialEq, Eq, Hash)]
pub struct Region {
    pub start: u32,
    pub len: u32,
}

impl Region {
    /// The position just past the last byte of the region.
    pub open spec fn end(self) -> int {
        self.start + self.len
    }

    pub open spec fn spec_overlaps(self, other: Region) -> bool {
        ranges_overlap(self.start as int, self.len as int, other.start as int, other.len as int)
    }

    /// Makes the region `[start, start + len)`; nothing is checked against any buffer.
    pub fn new(start: u32, len: u32) -> (r: Region)
        ensures
            r.start == start,
            r.len == len,
    {
        Region { start, len }
    }

    /// Whether the two regions share a byte. The sums are taken in 64 bits, so
    /// regions that reach past the end of the 32-bit range compare correctly.
    pub fn overlaps(&self, rhs: Region) -> (r: bool)
        ensures
            r == self.spec_overlaps(rhs),
    {
        let self_start = self.start as u64;
        let self_end = self_start + self.len as u64;
        let rhs_start = rhs.start as u64;
        let rhs_end = rhs_start + rhs.len as u64;
        self.len != 0 && rhs.len != 0 && self_start < rhs_end && rhs_start < self_end
    }
}

/// Overlap does not depend on the order of the two regions.
pub proof fn lemma_overlap_symmetric(a: Region, b: Region)
    ensures
        a.spec_overlaps(b) == b.spec_overlaps(a),
{
}

/// A region with at least one byte overlaps itself.
pub proof fn lemma_nonempty_overlaps_itself(a: Region)
    requires
        a.len > 0,
    ensures
        a.spec_overlaps(a),
{
}

/// An empty region overlaps nothing, on either side, not even another empty
/// region at the same start.
pub proof fn lemma_empty_overlaps_nothing(a: Region, x: Region)
    requires
        a.len == 0,
    ensures
        !a.spec_overlaps(x),
        !x.spec_overlaps(a),
{
}

} // verus!

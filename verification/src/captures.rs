//! The immutable result of a successful match: the buffer that was searched
//! and the ranges the needle reported in it.

use vstd::prelude::*;

use crate::needle::{ranges_view, ranges_wf, sorted_by_start};

verus! {

/// What a match returned: the searched buffer and every `(start, end)` byte
/// range the needle located in it, sorted by start.
#[derive(Debug, Clone, PartialEq, Eq)]
pub struct Captures {
    buf: Vec<u8>,
    matches: Vec<(usize, usize)>,
}

impl Captures {
    /// The bytes that were searched.
    pub closed spec fn buf_view(self) -> Seq<u8> {
        self.buf@
    }

    /// The located ranges, as mathematical pairs.
    pub closed spec fn ranges(self) -> Seq<(int, int)> {
        ranges_view(self.matches@)
    }

    /// Every range lies inside the buffer and the ranges are sorted by start.
    pub open spec fn wf(self) -> bool {
        &&& ranges_wf(self.ranges(), self.buf_view().len() as int)
        &&& sorted_by_start(self.ranges())
    }

    /// No range was located.
    pub open spec fn spec_is_empty(self) -> bool {
        self.ranges().len() == 0
    }

    /// The bytes ahead of the first range.
    pub open spec fn spec_before(self) -> Seq<u8> {
        self.buf_view().subrange(0, self.ranges()[0].0)
    }

    /// The bytes of range `i`.
    pub open spec fn spec_get(self, i: int) -> Seq<u8> {
        self.buf_view().subrange(self.ranges()[i].0, self.ranges()[i].1)
    }

    /// The offset up to which a successful match consumes the stream:
    /// the end of the first range, or nothing when no range was located.
    pub open spec fn spec_cut(self) -> int {
        if self.spec_is_empty() {
            0
        } else {
            self.ranges()[0].1
        }
    }

    /// Packs a searched buffer with the ranges a needle reported.
    pub fn new(buf: Vec<u8>, matches: Vec<(usize, usize)>) -> (r: Captures)
        requires
            ranges_wf(ranges_view(matches@), buf@.len() as int),
            sorted_by_start(ranges_view(matches@)),
        ensures
            r.buf_view() == buf@,
            r.ranges() == ranges_view(matches@),
            r.wf(),
    {
        Captures { buf, matches }
    }

    /// True iff the needle located no range.
    pub fn is_empty(&self) -> (r: bool)
        ensures
            r == self.spec_is_empty(),
    {
        self.matches.len() == 0
    }

    /// How many ranges were located.
    pub fn matches_count(&self) -> (r: usize)
        ensures
            r == self.ranges().len(),
    {
        self.matches.len()
    }

    /// The whole searched buffer.
    pub fn as_bytes(&self) -> (r: &[u8])
        ensures
            r@ == self.buf_view(),
    {
        self.buf.as_slice()
    }

    /// The bytes ahead of the first located range.
    pub fn before(&self) -> (r: &[u8])
        requires
            self.wf(),
            !self.spec_is_empty(),
        ensures
            r@ == self.spec_before(),
    {
        let start: usize = self.matches[0].0;
        proof {
            assert(self.ranges()[0] == (self.matches@[0].0 as int, self.matches@[0].1 as int));
        }
        vstd::slice::slice_subrange(self.buf.as_slice(), 0, start)
    }

    /// The bytes of the first located range.
    pub fn first(&self) -> (r: &[u8])
        requires
            self.wf(),
            !self.spec_is_empty(),
        ensures
            r@ == self.spec_get(0),
    {
        let start: usize = self.matches[0].0;
        let end: usize = self.matches[0].1;
        proof {
            assert(self.ranges()[0] == (self.matches@[0].0 as int, self.matches@[0].1 as int));
        }
        vstd::slice::slice_subrange(self.buf.as_slice(), start, end)
    }

    /// The bytes of range `i`, if the needle located that many ranges.
    pub fn get(&self, i: usize) -> (r: Option<&[u8]>)
        requires
            self.wf(),
        ensures
            i < self.ranges().len() ==> (r matches Some(b) && b@ == self.spec_get(i as int)),
            i >= self.ranges().len() ==> r is None,
    {
        if i < self.matches.len() {
            let start: usize = self.matches[i].0;
            let end: usize = self.matches[i].1;
            proof {
                assert(self.ranges()[i as int] == (
                    self.matches@[i as int].0 as int,
                    self.matches@[i as int].1 as int,
                ));
            }
            Some(vstd::slice::slice_subrange(self.buf.as_slice(), start, end))
        } else {
            None
        }
    }
}

} // verus!

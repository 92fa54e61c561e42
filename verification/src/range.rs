//! Half-open byte ranges over a source document.

use text_size::{TextRange, TextSize};
use vstd::prelude::*;

verus! {

/// A half-open range `[start, end)` of byte offsets into the source text.
#[derive(Clone, Copy, Debug, PartialEq, Eq, Structural)]
pub struct ByteRange {
    pub start: u32,
    pub end: u32,
}

impl ByteRange {
    /// A range is well formed when it does not end before it starts.
    pub open spec fn wf(self) -> bool {
        self.start <= self.end
    }

    /// `self` lies entirely inside `outer`.
    pub open spec fn within(self, outer: ByteRange) -> bool {
        outer.start <= self.start && self.end <= outer.end
    }

    /// `self` ends no later than `next` starts.
    pub open spec fn precedes(self, next: ByteRange) -> bool {
        self.end <= next.start
    }

    /// The zero-length range at `offset`.
    pub fn empty(offset: u32) -> (r: ByteRange)
        ensures
            r.start == offset,
            r.end == offset,
    {
        ByteRange { start: offset, end: offset }
    }

    /// The range `[start, end)`.
    pub fn new(start: u32, end: u32) -> (r: ByteRange)
        requires
            start <= end,
        ensures
            r.start == start,
            r.end == end,
    {
        text_range(start, end)
    }
}

/// Builds the range with `text_size::TextRange::new` and reads its two ends
/// back. Trusted: `TextRange::new(start, end)` stores the offsets it is given,
/// `start()` and `end()` return them, and the constructor panics when
/// `end < start`, which the precondition rules out.
#[verifier::external_body]
fn text_range(start: u32, end: u32) -> (r: ByteRange)
    requires
        start <= end,
    ensures
        r.start == start,
        r.end == end,
{
    let range = TextRange::new(TextSize::from(start), TextSize::from(end));
    ByteRange { start: range.start().into(), end: range.end().into() }
}

} // verus!

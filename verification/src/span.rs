//! Half-open byte ranges in the session-wide source stream.

use vstd::prelude::*;

verus! {

/// A `[start, end)` pair of global byte offsets.
#[derive(Clone, Copy, Debug, PartialEq, Eq, Structural)]
pub struct Span {
    pub start: usize,
    pub end: usize,
}

impl Span {
    /// The span from `start` up to, not including, `end`.
    pub fn new(start: usize, end: usize) -> (span: Span)
        ensures
            span.start == start,
            span.end == end,
    {
        Span { start, end }
    }

    /// The span that stands for "no source position": `[0, 0)`.
    pub fn unknown() -> (span: Span)
        ensures
            span.start == 0,
            span.end == 0,
    {
        Span { start: 0, end: 0 }
    }
}

} // verus!

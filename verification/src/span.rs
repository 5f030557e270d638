//! Source files and byte ranges within them.

use vstd::prelude::*;

verus! {

/// Handle of one source unit held by a `Database`.
///
/// Two source units with the same path and the same text share one handle;
/// a changed text is a new unit with a new handle.
#[derive(Clone, Copy, Debug, PartialEq, Eq, Structural, Hash)]
pub struct SourceFile {
    pub id: usize,
}

/// Byte range `[start, end)` within the text of `file`.
#[derive(Clone, Copy, Debug, PartialEq, Eq, Structural, Hash)]
pub struct Span {
    pub start: usize,
    pub end: usize,
    pub file: SourceFile,
}

impl Span {
    /// The span lies inside a text of `len` bytes: `0 <= start <= end <= len`.
    pub open spec fn within(self, len: int) -> bool {
        self.start <= self.end && self.end <= len
    }

    /// Number of bytes covered; zero for a span whose end lies before its start.
    pub open spec fn spec_len(self) -> int {
        if self.start <= self.end {
            self.end - self.start
        } else {
            0
        }
    }

    /// The bytes of `text` that the span covers.
    pub open spec fn of(self, text: Seq<u8>) -> Seq<u8>
        recommends
            self.within(text.len() as int),
    {
        text.subrange(self.start as int, self.end as int)
    }

    pub fn new(start: usize, end: usize, file: SourceFile) -> (span: Span)
        ensures
            span == (Span { start, end, file }),
    {
        Span { start, end, file }
    }

    pub fn len(&self) -> (n: usize)
        ensures
            n == self.spec_len(),
    {
        if self.start <= self.end {
            self.end - self.start
        } else {
            0
        }
    }
}

} // verus!

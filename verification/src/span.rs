use vstd::prelude::*;

verus! {

/// One-based source location.
#[derive(Clone, Copy, Debug, PartialEq, Eq, Structural)]
pub struct LineColumn {
    pub line: u32,
    pub column: u32,
}

impl LineColumn {
    /// Creates a one-based source location.
    pub fn new(line: u32, column: u32) -> (r: Self)
        ensures
            r.line == line,
            r.column == column,
    {
        LineColumn { line, column }
    }
}

/// Byte and line/column range for a source fact.
#[derive(Clone, Copy, Debug, PartialEq, Eq, Structural)]
pub struct SourceSpan {
    pub byte_start: u32,
    pub byte_end: u32,
    pub start: LineColumn,
    pub end: LineColumn,
}

impl SourceSpan {
    /// Creates a source span from byte offsets and one-based endpoints.
    pub fn new(byte_start: u32, byte_end: u32, start: LineColumn, end: LineColumn) -> (r: Self)
        ensures
            r.byte_start == byte_start,
            r.byte_end == byte_end,
            r.start == start,
            r.end == end,
    {
        SourceSpan { byte_start, byte_end, start, end }
    }
}

} // verus!

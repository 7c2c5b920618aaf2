use vstd::prelude::*;

verus! {

/// A position in a text: a line and a column.
#[derive(Clone, Copy, Default, Debug, PartialEq, Eq, Structural)]
pub struct Loc {
    pub line: usize,
    pub column: usize,
}

impl Loc {
    pub fn new(line: usize, column: usize) -> (loc: Self)
        ensures
            loc.line == line,
            loc.column == column,
    {
        Self { line, column }
    }
}

/// A stretch of text between two positions.
#[derive(Clone, Copy, Default, Debug, PartialEq, Eq, Structural)]
pub struct Span {
    pub start: Loc,
    pub end: Loc,
}

impl Span {
    pub fn new(start: Loc, end: Loc) -> (span: Self)
        ensures
            span.start == start,
            span.end == end,
    {
        Self { start, end }
    }
}

} // verus!

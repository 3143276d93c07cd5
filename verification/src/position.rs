//! Source positions and spans.
//!
//! A `Position` counts lines (from 1), columns (from 1) and consumed code
//! points (from 0). A `Span` is a half-open range of positions. Spans admit a
//! `join` that takes the component-wise minimum of the starts and the
//! component-wise maximum of the ends.

use vstd::prelude::*;

verus! {

/// A point in a source text: line and column for display, and the number of
/// code points consumed before this point.
#[derive(Debug, PartialEq, Eq, Structural, Clone, Copy)]
pub struct Position {
    pub line_number: usize,
    pub column_number: usize,
    pub character_index: usize,
}

impl Position {
    /// Lines and columns start at 1, and a position `k` code points into the
    /// source can be at most `k` lines or columns in.
    pub open spec fn wf(self) -> bool {
        &&& self.line_number >= 1
        &&& self.column_number >= 1
        &&& self.line_number - 1 + self.column_number - 1 <= self.character_index
    }

    /// The position at the very start of a source text.
    pub open spec fn start() -> Position {
        Position { line_number: 1, column_number: 1, character_index: 0 }
    }

    /// The position after consuming one more code point `c`: a line feed
    /// starts a new line, anything else moves one column to the right.
    pub open spec fn advance(self, c: char) -> Position {
        Position {
            line_number: if c == '\n' {
                (self.line_number + 1) as usize
            } else {
                self.line_number
            },
            column_number: if c == '\n' {
                1
            } else {
                (self.column_number + 1) as usize
            },
            character_index: (self.character_index + 1) as usize,
        }
    }

    pub open spec fn spec_min(self, other: Position) -> Position {
        Position {
            line_number: if self.line_number <= other.line_number {
                self.line_number
            } else {
                other.line_number
            },
            column_number: if self.column_number <= other.column_number {
                self.column_number
            } else {
                other.column_number
            },
            character_index: if self.character_index <= other.character_index {
                self.character_index
            } else {
                other.character_index
            },
        }
    }

    pub open spec fn spec_max(self, other: Position) -> Position {
        Position {
            line_number: if self.line_number >= other.line_number {
                self.line_number
            } else {
                other.line_number
            },
            column_number: if self.column_number >= other.column_number {
                self.column_number
            } else {
                other.column_number
            },
            character_index: if self.character_index >= other.character_index {
                self.character_index
            } else {
                other.character_index
            },
        }
    }

    /// Component-wise minimum of two positions.
    pub fn min(&self, other: &Position) -> (r: Position)
        ensures
            r == self.spec_min(*other),
    {
        Position {
            line_number: if self.line_number <= other.line_number {
                self.line_number
            } else {
                other.line_number
            },
            column_number: if self.column_number <= other.column_number {
                self.column_number
            } else {
                other.column_number
            },
            character_index: if self.character_index <= other.character_index {
                self.character_index
            } else {
                other.character_index
            },
        }
    }

    /// Component-wise maximum of two positions.
    pub fn max(&self, other: &Position) -> (r: Position)
        ensures
            r == self.spec_max(*other),
    {
        Position {
            line_number: if self.line_number >= other.line_number {
                self.line_number
            } else {
                other.line_number
            },
            column_number: if self.column_number >= other.column_number {
                self.column_number
            } else {
                other.column_number
            },
            character_index: if self.character_index >= other.character_index {
                self.character_index
            } else {
                other.character_index
            },
        }
    }
}

/// Advancing keeps a position well formed, and moves the code point count up
/// by exactly one.
pub proof fn lemma_advance_wf(p: Position, c: char)
    requires
        p.wf(),
        p.character_index + 2 <= usize::MAX,
    ensures
        p.advance(c).wf(),
        p.advance(c).character_index == p.character_index + 1,
{
}

/// A half-open range of source positions.
#[derive(Debug, PartialEq, Eq, Structural, Clone, Copy)]
pub struct Span {
    pub start: Position,
    pub end: Position,
}

impl Span {
    pub open spec fn spec_join(self, other: Span) -> Span {
        Span {
            start: self.start.spec_min(other.start),
            end: self.end.spec_max(other.end),
        }
    }

    /// A span within a source of `len` code points runs forward, and both of
    /// its endpoints lie inside the source.
    pub open spec fn wf(self, len: nat) -> bool {
        &&& self.start.character_index <= self.end.character_index
        &&& self.end.character_index <= len
    }

    /// One span contains another when it starts no later and ends no earlier,
    /// in every component.
    pub open spec fn contains(self, other: Span) -> bool {
        &&& self.start.line_number <= other.start.line_number
        &&& self.start.column_number <= other.start.column_number
        &&& self.start.character_index <= other.start.character_index
        &&& other.end.line_number <= self.end.line_number
        &&& other.end.column_number <= self.end.column_number
        &&& other.end.character_index <= self.end.character_index
    }

    /// The smallest span covering both `self` and `other`, component-wise.
    pub fn join(&self, other: &Span) -> (r: Span)
        ensures
            r == self.spec_join(*other),
    {
        Span {
            start: self.start.min(&other.start),
            end: self.end.max(&other.end),
        }
    }
}

/// The join of two spans contains both of them.
pub proof fn lemma_join_contains(a: Span, b: Span)
    ensures
        a.spec_join(b).contains(a),
        a.spec_join(b).contains(b),
{
}

/// Joining spans is commutative.
pub proof fn lemma_join_commutative(a: Span, b: Span)
    ensures
        a.spec_join(b) == b.spec_join(a),
{
}

/// Joining spans is associative.
pub proof fn lemma_join_associative(a: Span, b: Span, c: Span)
    ensures
        a.spec_join(b).spec_join(c) == a.spec_join(b.spec_join(c)),
{
}

/// Joining well-formed spans yields a well-formed span.
pub proof fn lemma_join_wf(a: Span, b: Span, len: nat)
    requires
        a.wf(len),
        b.wf(len),
    ensures
        a.spec_join(b).wf(len),
{
}

} // verus!

//! Source positions (line and UTF-16 column) and the range predicates built on them.

use vstd::prelude::*;

verus! {

/// A position in a source file: a zero-based line and a zero-based column counted in UTF-16 units.
/// Positions order by line, then by column.
#[derive(Clone, Copy, Debug, PartialEq, Eq, Structural, PartialOrd, Ord, Hash)]
pub struct Position {
    pub line: u32,
    pub utf16_col: u32,
}

/// A half-open source range `start..end`.
#[derive(Clone, Copy, Debug, PartialEq, Eq, Structural)]
pub struct Location {
    pub start: Position,
    pub end: Position,
}

/// Lexicographic order on positions: first by line, then by column.
pub open spec fn pos_le(a: Position, b: Position) -> bool {
    a.line < b.line || (a.line == b.line && a.utf16_col <= b.utf16_col)
}

pub open spec fn pos_lt(a: Position, b: Position) -> bool {
    a.line < b.line || (a.line == b.line && a.utf16_col < b.utf16_col)
}

impl Position {
    pub fn new(line: u32, utf16_col: u32) -> (r: Position)
        ensures
            r.line == line,
            r.utf16_col == utf16_col,
    {
        Position { line, utf16_col }
    }

    /// `self <= other` in the lexicographic order.
    pub fn le(&self, other: &Position) -> (r: bool)
        ensures
            r == pos_le(*self, *other),
    {
        self.line < other.line || (self.line == other.line && self.utf16_col <= other.utf16_col)
    }

    /// `self < other` in the lexicographic order.
    pub fn lt(&self, other: &Position) -> (r: bool)
        ensures
            r == pos_lt(*self, *other),
    {
        self.line < other.line || (self.line == other.line && self.utf16_col < other.utf16_col)
    }
}

impl Location {
    pub fn new(start: Position, end: Position) -> (r: Location)
        ensures
            r.start == start,
            r.end == end,
    {
        Location { start, end }
    }

    /// An empty range at `p`.
    pub fn at(p: Position) -> (r: Location)
        ensures
            r == loc_at(p),
    {
        Location { start: p, end: p }
    }

    pub open spec fn is_empty_spec(self) -> bool {
        !pos_lt(self.start, self.end)
    }

    /// A range is empty when its start is not before its end.
    pub fn is_empty(&self) -> (r: bool)
        ensures
            r == self.is_empty_spec(),
    {
        !self.start.lt(&self.end)
    }
}

/// The empty range at `p`.
pub open spec fn loc_at(p: Position) -> Location {
    Location { start: p, end: p }
}

pub open spec fn spec_exclusive_contains(loc: Location, pos: Position) -> bool {
    pos_lt(loc.start, pos) && pos_lt(pos, loc.end)
}

pub open spec fn spec_inclusive_contains(loc: Location, pos: Position) -> bool {
    pos_le(loc.start, pos) && pos_le(pos, loc.end)
}

/// Whether `pos` lies strictly inside `loc`.
pub fn exclusive_contains(loc: &Location, pos: Position) -> (r: bool)
    ensures
        r == spec_exclusive_contains(*loc, pos),
{
    loc.start.lt(&pos) && pos.lt(&loc.end)
}

/// Whether `pos` lies inside `loc` or on one of its bounds.
pub fn inclusive_contains(loc: &Location, pos: Position) -> (r: bool)
    ensures
        r == spec_inclusive_contains(*loc, pos),
{
    loc.start.le(&pos) && pos.le(&loc.end)
}

/// Where the range `loc` lies relative to `pos`: `Greater` when `pos` is at or before its start,
/// `Less` when `pos` is at or after its end, `Equal` when `pos` is strictly inside.
pub fn exclusive_ordering(loc: &Location, pos: Position) -> (r: std::cmp::Ordering)
    ensures
        pos_le(pos, loc.start) ==> r == std::cmp::Ordering::Greater,
        !pos_le(pos, loc.start) && pos_le(loc.end, pos) ==> r == std::cmp::Ordering::Less,
        !pos_le(pos, loc.start) && !pos_le(loc.end, pos) ==> r == std::cmp::Ordering::Equal,
{
    if pos.le(&loc.start) {
        std::cmp::Ordering::Greater
    } else if loc.end.le(&pos) {
        std::cmp::Ordering::Less
    } else {
        std::cmp::Ordering::Equal
    }
}

} // verus!

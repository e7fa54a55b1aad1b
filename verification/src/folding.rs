//! Folding ranges of style sheets: one for each comment and one for each `{...}` block.

use vstd::prelude::*;
use crate::position::Location;
use crate::wxss::sheet::StyleSheet;

verus! {

/// The kind of a folding range that the editor treats specially.
#[derive(Debug, Clone, Copy, PartialEq, Eq, Structural)]
pub enum FoldingRangeKind {
    Comment,
}

/// A range that the editor can fold, from a line and column to a line and column.
#[derive(Debug, Clone, Copy, PartialEq, Eq, Structural)]
pub struct FoldingRange {
    pub start_line: u32,
    pub start_character: u32,
    pub end_line: u32,
    pub end_character: u32,
    pub kind: Option<FoldingRangeKind>,
}

pub open spec fn spec_folding_range(loc: Location, kind: Option<FoldingRangeKind>) -> FoldingRange {
    FoldingRange {
        start_line: loc.start.line,
        start_character: loc.start.utf16_col,
        end_line: loc.end.line,
        end_character: loc.end.utf16_col,
        kind,
    }
}

/// The folding range that covers `loc`.
pub fn convert_folding_range(loc: Location, kind: Option<FoldingRangeKind>) -> (r: FoldingRange)
    ensures
        r == spec_folding_range(loc, kind),
{
    FoldingRange {
        start_line: loc.start.line,
        start_character: loc.start.utf16_col,
        end_line: loc.end.line,
        end_character: loc.end.utf16_col,
        kind,
    }
}

/// The folding ranges of a style sheet: its comments, in order, then the inner ranges of its
/// blocks, in order.
pub fn collect_wxss_folding_ranges(sheet: &StyleSheet) -> (r: Vec<FoldingRange>)
    ensures
        r@.len() == sheet.comments@.len() + sheet.braces@.len(),
        forall|i: int| 0 <= i < sheet.comments@.len() ==> r@[i] == spec_folding_range(
            sheet.comments@[i].location,
            Some(FoldingRangeKind::Comment),
        ),
        forall|i: int| 0 <= i < sheet.braces@.len() ==> r@[sheet.comments@.len() + i]
            == spec_folding_range(sheet.braces@[i], None),
{
    let mut r: Vec<FoldingRange> = Vec::new();
    let mut i: usize = 0;
    while i < sheet.comments.len()
        invariant
            i <= sheet.comments@.len(),
            r@.len() == i,
            forall|j: int| 0 <= j < i ==> r@[j] == spec_folding_range(
                sheet.comments@[j].location,
                Some(FoldingRangeKind::Comment),
            ),
        decreases sheet.comments@.len() - i,
    {
        r.push(convert_folding_range(sheet.comments[i].location, Some(FoldingRangeKind::Comment)));
        i = i + 1;
    }
    let c = sheet.comments.len();
    let mut j: usize = 0;
    while j < sheet.braces.len()
        invariant
            c == sheet.comments@.len(),
            j <= sheet.braces@.len(),
            r@.len() == c + j,
            forall|t: int| 0 <= t < c ==> r@[t] == spec_folding_range(
                sheet.comments@[t].location,
                Some(FoldingRangeKind::Comment),
            ),
            forall|t: int| 0 <= t < j ==> r@[c + t] == spec_folding_range(sheet.braces@[t], None),
        decreases sheet.braces@.len() - j,
    {
        r.push(convert_folding_range(sheet.braces[j], None));
        j = j + 1;
    }
    r
}

} // verus!

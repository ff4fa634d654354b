//! Checking one pattern against the rules that its rows must keep.
//!
//! Each lane is read from the first row to the last. An arc is open from
//! the cell that starts it until a cell ends an arc of its height or another
//! cell starts an arc. Starting an arc while one is open leaves the open one
//! unclosed; so does the end of the pattern. An end that does not match the
//! open arc, or that meets no open arc, is unmatched, and leaves things as
//! they are. A closed arc must span a number of rows within the limits.

use crate::cell::{CellContent, Height};
use crate::lane::Lane;
use crate::pattern::{column, Pattern, PatternRow};
use vstd::prelude::*;

verus! {

/// The fewest and the most rows that a closed arc may span.
#[derive(Clone, Copy, Debug, PartialEq, Eq, Structural)]
pub struct ArcLimits {
    pub min: usize,
    pub max: usize,
}

impl ArcLimits {
    /// The limits that patterns are held to unless others are given: an arc
    /// spans from 2 to 12 rows.
    pub open spec fn usual() -> ArcLimits {
        ArcLimits { min: 2, max: 12 }
    }

    /// Whether an arc may span this many rows.
    pub open spec fn admits(self, span: int) -> bool {
        self.min <= span <= self.max
    }

    /// The limits that patterns are held to unless others are given.
    pub fn standard() -> (limits: ArcLimits)
        ensures
            limits == ArcLimits::usual(),
    {
        ArcLimits { min: 2, max: 12 }
    }
}

impl Default for ArcLimits {
    fn default() -> (limits: ArcLimits)
        ensures
            limits == ArcLimits::usual(),
    {
        ArcLimits::standard()
    }
}

/// One way in which a pattern breaks the rules. Rows are counted from 0.
#[derive(Clone, Copy, Debug, PartialEq, Eq, Structural)]
pub enum PatternDefect {
    /// The pattern has no rows.
    EmptyPattern,
    /// The arc started in this lane at this row is never closed.
    UnclosedArc(Lane, usize),
    /// The arc end in this lane at this row closes nothing.
    UnmatchedArcEnd(Lane, usize),
    /// The arc of this lane from the first row to the second spans too few
    /// or too many rows.
    ArcSpanOutOfRange(Lane, usize, usize),
}

/// An arc that has been started and not yet closed.
#[derive(Clone, Copy, Debug, PartialEq, Eq, Structural)]
pub struct OpenArc {
    pub height: Height,
    pub start: usize,
}

/// The arc that is open after a cell, given the one open before it.
pub open spec fn after_cell(open: Option<OpenArc>, cell: CellContent, row: usize) -> Option<
    OpenArc,
> {
    match cell.arc_start() {
        Some(height) => Some(OpenArc { height, start: row }),
        None => match open {
            Some(arc) => if cell.arc_end() == Some(arc.height) {
                None
            } else {
                open
            },
            None => None,
        },
    }
}

/// The defect that a cell brings to light, given the arc open before it.
pub open spec fn cell_defect(
    open: Option<OpenArc>,
    cell: CellContent,
    lane: Lane,
    row: usize,
    limits: ArcLimits,
) -> Option<PatternDefect> {
    if cell.arc_start() is Some {
        match open {
            Some(arc) => Some(PatternDefect::UnclosedArc(lane, arc.start)),
            None => None,
        }
    } else if cell.arc_end() is Some {
        match open {
            Some(arc) => if cell.arc_end() != Some(arc.height) {
                Some(PatternDefect::UnmatchedArcEnd(lane, row))
            } else if limits.admits(row - arc.start) {
                None
            } else {
                Some(PatternDefect::ArcSpanOutOfRange(lane, arc.start, row))
            },
            None => Some(PatternDefect::UnmatchedArcEnd(lane, row)),
        }
    } else {
        None
    }
}

/// The arc that is open in a lane before its row `k`.
pub open spec fn open_before(cells: Seq<CellContent>, k: int) -> Option<OpenArc>
    decreases k,
{
    if k <= 0 {
        None
    } else {
        after_cell(open_before(cells, k - 1), cells[k - 1], (k - 1) as usize)
    }
}

/// The defects that the rows of a lane before row `k` bring to light, in
/// the order of the rows.
pub open spec fn found_before(
    cells: Seq<CellContent>,
    lane: Lane,
    limits: ArcLimits,
    k: int,
) -> Seq<PatternDefect>
    decreases k,
{
    if k <= 0 {
        Seq::empty()
    } else {
        let earlier = found_before(cells, lane, limits, k - 1);
        match cell_defect(open_before(cells, k - 1), cells[k - 1], lane, (k - 1) as usize, limits) {
            Some(defect) => earlier.push(defect),
            None => earlier,
        }
    }
}

/// The defects of one lane: those that its rows bring to light, then the
/// arc left open at the end, if there is one.
pub open spec fn lane_defects(cells: Seq<CellContent>, lane: Lane, limits: ArcLimits) -> Seq<
    PatternDefect,
> {
    let found = found_before(cells, lane, limits, cells.len() as int);
    match open_before(cells, cells.len() as int) {
        Some(arc) => found.push(PatternDefect::UnclosedArc(lane, arc.start)),
        None => found,
    }
}

/// Every defect of a pattern's rows: that there are none, or else the
/// defects of the left lane, then of the middle one, then of the right one.
pub open spec fn pattern_defects(rows: Seq<PatternRow>, limits: ArcLimits) -> Seq<PatternDefect> {
    if rows.len() == 0 {
        seq![PatternDefect::EmptyPattern]
    } else {
        lane_defects(column(rows, Lane::Left), Lane::Left, limits) + lane_defects(
            column(rows, Lane::Middle),
            Lane::Middle,
            limits,
        ) + lane_defects(column(rows, Lane::Right), Lane::Right, limits)
    }
}

/// An open arc started at an earlier row.
proof fn lemma_open_started_earlier(cells: Seq<CellContent>, k: int)
    requires
        0 <= k <= usize::MAX,
    ensures
        open_before(cells, k) matches Some(arc) ==> arc.start < k,
    decreases k,
{
    if k > 0 {
        lemma_open_started_earlier(cells, k - 1);
    }
}

/// Reads one lane and adds its defects to a list.
fn check_lane(rows: &Vec<PatternRow>, lane: Lane, limits: ArcLimits, defects: &mut Vec<PatternDefect>)
    ensures
        final(defects)@ == old(defects)@ + lane_defects(column(rows@, lane), lane, limits),
{
    let ghost cells = column(rows@, lane);
    let ghost given = defects@;
    let mut open: Option<OpenArc> = None;
    let mut i: usize = 0;
    while i < rows.len()
        invariant
            i <= rows.len(),
            cells == column(rows@, lane),
            open == open_before(cells, i as int),
            defects@ == given + found_before(cells, lane, limits, i as int),
        decreases rows.len() - i,
    {
        let cell = rows[i].cell(lane);
        proof {
            lemma_open_started_earlier(cells, i as int);
        }
        match cell.opened_arc() {
            Some(height) => {
                if let Some(arc) = open {
                    defects.push(PatternDefect::UnclosedArc(lane, arc.start));
                }
                open = Some(OpenArc { height, start: i });
            },
            None => {
                if let Some(height) = cell.closed_arc() {
                    match open {
                        Some(arc) => {
                            if arc.height != height {
                                defects.push(PatternDefect::UnmatchedArcEnd(lane, i));
                            } else {
                                let span = i - arc.start;
                                if span < limits.min || span > limits.max {
                                    defects.push(
                                        PatternDefect::ArcSpanOutOfRange(lane, arc.start, i),
                                    );
                                }
                                open = None;
                            }
                        },
                        None => {
                            defects.push(PatternDefect::UnmatchedArcEnd(lane, i));
                        },
                    }
                }
            },
        }
        i += 1;
    }
    if let Some(arc) = open {
        defects.push(PatternDefect::UnclosedArc(lane, arc.start));
    }
}

/// Checks a pattern against the rules, with the given limits on the span
/// of an arc. Every defect is reported, not only the first.
pub fn validate_pattern_with(pattern: &Pattern, limits: ArcLimits) -> (defects: Vec<PatternDefect>)
    ensures
        defects@ == pattern_defects(pattern@.rows, limits),
{
    let mut defects: Vec<PatternDefect> = Vec::new();
    if pattern.rows.len() == 0 {
        defects.push(PatternDefect::EmptyPattern);
    } else {
        check_lane(&pattern.rows, Lane::Left, limits, &mut defects);
        check_lane(&pattern.rows, Lane::Middle, limits, &mut defects);
        check_lane(&pattern.rows, Lane::Right, limits, &mut defects);
    }
    defects
}

/// Checks a pattern against the rules, with the usual limits on the span
/// of an arc. Every defect is reported, not only the first.
pub fn validate_pattern(pattern: &Pattern) -> (defects: Vec<PatternDefect>)
    ensures
        defects@ == pattern_defects(pattern@.rows, ArcLimits::usual()),
{
    validate_pattern_with(pattern, ArcLimits::standard())
}

} // verus!

//! What the defects of a pattern mean, stated without the scan that finds
//! them, and the proof that the scan finds exactly those.

use crate::cell::CellContent;
use crate::lane::Lane;
use crate::pattern::{column, PatternRow};
use crate::validate::{
    cell_defect, found_before, lane_defects, open_before, pattern_defects, ArcLimits, OpenArc,
    PatternDefect,
};
use vstd::prelude::*;
use vstd::seq_lib::{lemma_seq_concat_contains_all_elements, lemma_seq_contains_after_push};

verus! {

/// Whether the arc that row `i` starts is still open before row `k`: no row
/// between them starts an arc or ends one of its height.
pub open spec fn arc_open(cells: Seq<CellContent>, i: int, k: int) -> bool {
    &&& 0 <= i < k <= cells.len()
    &&& cells[i].arc_start() is Some
    &&& forall|m: int|
        i < m < k ==> (#[trigger] cells[m]).arc_start() is None && cells[m].arc_end()
            != cells[i].arc_start()
}

/// Whether the arc that row `i` starts is never closed: it is open at the
/// end of the lane, or at a row that starts another arc.
pub open spec fn arc_unclosed(cells: Seq<CellContent>, i: int) -> bool {
    exists|k: int|
        #[trigger] arc_open(cells, i, k) && (k == cells.len() || cells[k].arc_start() is Some)
}

/// Whether row `j` ends an arc where no arc of its height is open.
pub open spec fn end_unmatched(cells: Seq<CellContent>, j: int) -> bool {
    &&& 0 <= j < cells.len()
    &&& cells[j].arc_end() is Some
    &&& forall|i: int| #[trigger] arc_open(cells, i, j) ==> cells[i].arc_start() != cells[j].arc_end()
}

/// Whether rows `i` and `j` are the start and the end of one arc.
pub open spec fn arc_closed(cells: Seq<CellContent>, i: int, j: int) -> bool {
    &&& arc_open(cells, i, j)
    &&& j < cells.len()
    &&& cells[j].arc_end() == cells[i].arc_start()
}

/// What it means for a pattern to have a defect.
pub open spec fn is_defect(rows: Seq<PatternRow>, limits: ArcLimits, defect: PatternDefect) -> bool {
    match defect {
        PatternDefect::EmptyPattern => rows.len() == 0,
        PatternDefect::UnclosedArc(lane, start) => arc_unclosed(column(rows, lane), start as int),
        PatternDefect::UnmatchedArcEnd(lane, row) => end_unmatched(column(rows, lane), row as int),
        PatternDefect::ArcSpanOutOfRange(lane, start, end) => arc_closed(
            column(rows, lane),
            start as int,
            end as int,
        ) && !limits.admits(end - start),
    }
}

/// What it means for a lane to have a defect.
pub open spec fn is_lane_defect(
    cells: Seq<CellContent>,
    lane: Lane,
    limits: ArcLimits,
    defect: PatternDefect,
) -> bool {
    match defect {
        PatternDefect::EmptyPattern => false,
        PatternDefect::UnclosedArc(l, start) => l == lane && arc_unclosed(cells, start as int),
        PatternDefect::UnmatchedArcEnd(l, row) => l == lane && end_unmatched(cells, row as int),
        PatternDefect::ArcSpanOutOfRange(l, start, end) => l == lane && arc_closed(
            cells,
            start as int,
            end as int,
        ) && !limits.admits(end - start),
    }
}

/// The arc that the scan holds open before a row is the one that is open
/// there, and where the scan holds none open, none is.
pub proof fn lemma_open_before_is_open(cells: Seq<CellContent>, k: int)
    requires
        0 <= k <= cells.len() <= usize::MAX,
    ensures
        open_before(cells, k) matches Some(arc) ==> arc_open(cells, arc.start as int, k)
            && cells[arc.start as int].arc_start() == Some(arc.height),
        open_before(cells, k) is None ==> forall|i: int| !#[trigger] arc_open(cells, i, k),
    decreases k,
{
    if k > 0 {
        lemma_open_before_is_open(cells, k - 1);
        if cells[k - 1].arc_start() is None && open_before(cells, k) is None {
            assert forall|i: int| !#[trigger] arc_open(cells, i, k) by {
                if arc_open(cells, i, k) {
                    // It was open one row earlier too, so it is the arc
                    // that was held open there: but this row closed that.
                    assert(arc_open(cells, i, k - 1));
                }
            }
        }
    }
}

/// An arc that is open before a row is the one that the scan holds open
/// there.
pub proof fn lemma_open_is_open_before(cells: Seq<CellContent>, i: int, k: int)
    requires
        cells.len() <= usize::MAX,
        arc_open(cells, i, k),
    ensures
        open_before(cells, k) == Some(
            OpenArc { height: cells[i].arc_start()->Some_0, start: i as usize },
        ),
{
    lemma_open_before_is_open(cells, k);
}

/// A defect is among those found before row `k` exactly if one of the rows
/// before `k` brings it to light.
pub proof fn lemma_found_before(
    cells: Seq<CellContent>,
    lane: Lane,
    limits: ArcLimits,
    k: int,
    defect: PatternDefect,
)
    requires
        0 <= k,
    ensures
        found_before(cells, lane, limits, k).contains(defect) <==> exists|r: int|
            0 <= r < k && #[trigger] cell_defect(
                open_before(cells, r),
                cells[r],
                lane,
                r as usize,
                limits,
            ) == Some(defect),
    decreases k,
{
    broadcast use lemma_seq_contains_after_push;

    if k > 0 {
        lemma_found_before(cells, lane, limits, k - 1, defect);
    }
}

/// The defects that are reported of a lane are the defects of the lane.
pub proof fn lemma_lane_defects(
    cells: Seq<CellContent>,
    lane: Lane,
    limits: ArcLimits,
    defect: PatternDefect,
)
    requires
        cells.len() <= usize::MAX,
    ensures
        lane_defects(cells, lane, limits).contains(defect) <==> is_lane_defect(
            cells,
            lane,
            limits,
            defect,
        ),
{
    broadcast use lemma_seq_contains_after_push;

    let n = cells.len() as int;
    lemma_found_before(cells, lane, limits, n, defect);
    lemma_open_before_is_open(cells, n);
    if lane_defects(cells, lane, limits).contains(defect) {
        if found_before(cells, lane, limits, n).contains(defect) {
            let r = choose|r: int|
                0 <= r < n && #[trigger] cell_defect(
                    open_before(cells, r),
                    cells[r],
                    lane,
                    r as usize,
                    limits,
                ) == Some(defect);
            lemma_open_before_is_open(cells, r);
        }
    }
    if is_lane_defect(cells, lane, limits, defect) {
        // The row that brings the defect to light, or the end of the lane.
        let at: int = match defect {
            PatternDefect::UnclosedArc(_, start) => choose|k: int| #[trigger]
                arc_open(cells, start as int, k) && (k == n || cells[k].arc_start() is Some),
            PatternDefect::UnmatchedArcEnd(_, row) => row as int,
            PatternDefect::ArcSpanOutOfRange(_, _, end) => end as int,
            PatternDefect::EmptyPattern => 0,
        };
        lemma_open_before_is_open(cells, at);
        if at < n {
            assert(cell_defect(open_before(cells, at), cells[at], lane, at as usize, limits)
                == Some(defect));
        }
    }
}

/// The defects that are reported of a pattern are the defects of the
/// pattern: nothing else is reported, and nothing is passed over.
pub proof fn lemma_pattern_defects(rows: Seq<PatternRow>, limits: ArcLimits, defect: PatternDefect)
    requires
        rows.len() <= usize::MAX,
    ensures
        pattern_defects(rows, limits).contains(defect) <==> is_defect(rows, limits, defect),
{
    broadcast use lemma_seq_concat_contains_all_elements;

    lemma_lane_defects(column(rows, Lane::Left), Lane::Left, limits, defect);
    lemma_lane_defects(column(rows, Lane::Middle), Lane::Middle, limits, defect);
    lemma_lane_defects(column(rows, Lane::Right), Lane::Right, limits, defect);
    if rows.len() == 0 {
        assert(pattern_defects(rows, limits)[0] == PatternDefect::EmptyPattern);
    }
}

/// An arc that is started at row `i` of a lane and closed at a later row
/// `j` by an end of its own height, with no arc started between the two, is
/// paired: its start is not reported as unclosed, and its end is not
/// reported as unmatched. This holds whatever the rest of the pattern holds.
pub proof fn lemma_closed_arc_is_paired(
    rows: Seq<PatternRow>,
    lane: Lane,
    limits: ArcLimits,
    i: int,
    j: int,
)
    requires
        rows.len() <= usize::MAX,
        arc_closed(column(rows, lane), i, j),
    ensures
        !pattern_defects(rows, limits).contains(PatternDefect::UnclosedArc(lane, i as usize)),
        !pattern_defects(rows, limits).contains(PatternDefect::UnmatchedArcEnd(lane, j as usize)),
{
    lemma_pattern_defects(rows, limits, PatternDefect::UnclosedArc(lane, i as usize));
    lemma_pattern_defects(rows, limits, PatternDefect::UnmatchedArcEnd(lane, j as usize));
}

/// A lane whose only arc cells are the start of an arc at row `i` and the
/// end of an arc of the same height at a later row `j` has no pairing
/// defect: no arc of the lane is reported as unclosed, and no end as
/// unmatched.
pub proof fn lemma_lone_arc_has_no_pairing_defect(
    rows: Seq<PatternRow>,
    lane: Lane,
    limits: ArcLimits,
    i: int,
    j: int,
)
    requires
        rows.len() <= usize::MAX,
        0 <= i < j < rows.len(),
        rows[i].at(lane).arc_start() is Some,
        rows[j].at(lane).arc_end() == rows[i].at(lane).arc_start(),
        forall|m: int|
            0 <= m < rows.len() && m != i && m != j ==> (#[trigger] rows[m]).at(lane).arc_start()
                is None && rows[m].at(lane).arc_end() is None,
    ensures
        forall|row: usize|
            !#[trigger] pattern_defects(rows, limits).contains(
                PatternDefect::UnclosedArc(lane, row),
            ),
        forall|row: usize|
            !#[trigger] pattern_defects(rows, limits).contains(
                PatternDefect::UnmatchedArcEnd(lane, row),
            ),
{
    lemma_closed_arc_is_paired(rows, lane, limits, i, j);
    assert forall|row: usize|
        !#[trigger] pattern_defects(rows, limits).contains(
            PatternDefect::UnclosedArc(lane, row),
        ) by {
        lemma_pattern_defects(rows, limits, PatternDefect::UnclosedArc(lane, row));
    }
    assert forall|row: usize|
        !#[trigger] pattern_defects(rows, limits).contains(
            PatternDefect::UnmatchedArcEnd(lane, row),
        ) by {
        lemma_pattern_defects(rows, limits, PatternDefect::UnmatchedArcEnd(lane, row));
    }
}

/// An arc that is open at a row which ends an arc of another height is not
/// closed by it: the end is reported as unmatched.
pub proof fn lemma_mismatched_end_is_reported(
    rows: Seq<PatternRow>,
    lane: Lane,
    limits: ArcLimits,
    i: int,
    j: int,
)
    requires
        rows.len() <= usize::MAX,
        arc_open(column(rows, lane), i, j),
        j < rows.len(),
        rows[j].at(lane).arc_end() is Some,
        rows[j].at(lane).arc_end() != rows[i].at(lane).arc_start(),
    ensures
        pattern_defects(rows, limits).contains(PatternDefect::UnmatchedArcEnd(lane, j as usize)),
{
    lemma_pattern_defects(rows, limits, PatternDefect::UnmatchedArcEnd(lane, j as usize));
}

/// A closed arc is reported as out of range exactly if the number of rows
/// from its start to its end is outside the limits.
pub proof fn lemma_span_is_checked(
    rows: Seq<PatternRow>,
    lane: Lane,
    limits: ArcLimits,
    i: int,
    j: int,
)
    requires
        rows.len() <= usize::MAX,
        arc_closed(column(rows, lane), i, j),
    ensures
        pattern_defects(rows, limits).contains(
            PatternDefect::ArcSpanOutOfRange(lane, i as usize, j as usize),
        ) <==> !(limits.min <= j - i <= limits.max),
{
    lemma_pattern_defects(
        rows,
        limits,
        PatternDefect::ArcSpanOutOfRange(lane, i as usize, j as usize),
    );
}

/// An open arc runs on until a row that starts an arc or ends one of its
/// height, or until the end of the lane.
proof fn lemma_arc_runs_on(cells: Seq<CellContent>, i: int, k: int) -> (stop: int)
    requires
        arc_open(cells, i, k),
    ensures
        arc_open(cells, i, stop),
        stop == cells.len() || cells[stop].arc_start() is Some || cells[stop].arc_end()
            == cells[i].arc_start(),
    decreases cells.len() - k,
{
    if k == cells.len() || cells[k].arc_start() is Some || cells[k].arc_end()
        == cells[i].arc_start() {
        k
    } else {
        lemma_arc_runs_on(cells, i, k + 1)
    }
}

/// In a pattern of which no defect is reported, every arc that a lane
/// starts is closed, by an end of its height and before the lane starts
/// another arc, and it spans a number of rows within the limits.
pub proof fn lemma_sound_pattern_closes_arcs(
    rows: Seq<PatternRow>,
    limits: ArcLimits,
    lane: Lane,
    i: int,
) -> (j: int)
    requires
        rows.len() <= usize::MAX,
        pattern_defects(rows, limits).len() == 0,
        0 <= i < rows.len(),
        rows[i].at(lane).arc_start() is Some,
    ensures
        arc_closed(column(rows, lane), i, j),
        limits.min <= j - i <= limits.max,
{
    let j = lemma_arc_runs_on(column(rows, lane), i, i + 1);
    lemma_pattern_defects(rows, limits, PatternDefect::UnclosedArc(lane, i as usize));
    lemma_pattern_defects(
        rows,
        limits,
        PatternDefect::ArcSpanOutOfRange(lane, i as usize, j as usize),
    );
    j
}

/// In a pattern of which no defect is reported, every arc end closes an
/// arc of its height.
pub proof fn lemma_sound_pattern_matches_ends(
    rows: Seq<PatternRow>,
    limits: ArcLimits,
    lane: Lane,
    j: int,
) -> (i: int)
    requires
        rows.len() <= usize::MAX,
        pattern_defects(rows, limits).len() == 0,
        0 <= j < rows.len(),
        rows[j].at(lane).arc_end() is Some,
    ensures
        arc_closed(column(rows, lane), i, j),
{
    let cells = column(rows, lane);
    lemma_pattern_defects(rows, limits, PatternDefect::UnmatchedArcEnd(lane, j as usize));
    choose|i: int| #[trigger] arc_open(cells, i, j) && cells[i].arc_start() == cells[j].arc_end()
}

/// A pattern of which no defect is reported has a row.
pub proof fn lemma_sound_pattern_has_rows(rows: Seq<PatternRow>, limits: ArcLimits)
    requires
        pattern_defects(rows, limits).len() == 0,
    ensures
        rows.len() > 0,
{
}

} // verus!

use track_patterns::cell::{parse_cell, CellContent};
use track_patterns::lane::Lane;
use track_patterns::pattern::{Pattern, PatternMetadata, PatternRow};
use track_patterns::validate::{
    validate_pattern, validate_pattern_with, ArcLimits, PatternDefect,
};

// One character per cell, one word per row: "a.c" is an arc start on the
// left, nothing in the middle, a coin on the right.
fn grid(rows: &[&str]) -> Pattern {
    let cell = |c: char| -> CellContent {
        if c == '.' {
            CellContent::Empty
        } else {
            parse_cell(&c.to_string()).unwrap()
        }
    };
    Pattern {
        metadata: PatternMetadata {
            unique_name: "p".to_string(),
            name: "P".to_string(),
            version: "1".to_string(),
        },
        leads_from: vec![],
        leads_to: vec![],
        rows: rows
            .iter()
            .map(|r| {
                let cells: Vec<char> = r.chars().collect();
                PatternRow { left: cell(cells[0]), middle: cell(cells[1]), right: cell(cells[2]) }
            })
            .collect(),
        start: false,
        terminal: false,
    }
}

fn left_lane(cells: &str) -> Pattern {
    let rows: Vec<String> = cells.chars().map(|c| format!("{}..", c)).collect();
    let rows: Vec<&str> = rows.iter().map(|s| s.as_str()).collect();
    grid(&rows)
}

#[test]
fn usual_limits_are_two_to_twelve() {
    assert_eq!(ArcLimits::standard(), ArcLimits { min: 2, max: 12 });
    assert_eq!(ArcLimits::default(), ArcLimits { min: 2, max: 12 });
}

#[test]
fn pattern_without_rows_is_empty() {
    assert_eq!(validate_pattern(&grid(&[])), vec![PatternDefect::EmptyPattern]);
}

#[test]
fn pattern_without_arcs_is_valid() {
    assert_eq!(validate_pattern(&grid(&["c.C", "rbp", "P.."])), vec![]);
}

#[test]
fn matched_low_arc_is_valid() {
    assert_eq!(validate_pattern(&left_lane("a.x")), vec![]);
    assert_eq!(validate_pattern(&left_lane(".a..x.")), vec![]);
}

#[test]
fn matched_high_arc_is_valid() {
    assert_eq!(validate_pattern(&left_lane("A..X")), vec![]);
}

#[test]
fn low_arc_closed_by_high_end_is_unmatched_and_stays_open() {
    assert_eq!(
        validate_pattern(&left_lane("a.X")),
        vec![PatternDefect::UnmatchedArcEnd(Lane::Left, 2), PatternDefect::UnclosedArc(Lane::Left, 0)]
    );
    assert_eq!(
        validate_pattern(&left_lane("a.X.x")),
        vec![PatternDefect::UnmatchedArcEnd(Lane::Left, 2)]
    );
}

#[test]
fn high_arc_closed_by_low_end_is_unmatched() {
    assert_eq!(
        validate_pattern(&left_lane("A.x.X")),
        vec![PatternDefect::UnmatchedArcEnd(Lane::Left, 2)]
    );
}

#[test]
fn end_without_start_is_unmatched() {
    assert_eq!(validate_pattern(&left_lane("x")), vec![PatternDefect::UnmatchedArcEnd(Lane::Left, 0)]);
    assert_eq!(
        validate_pattern(&left_lane("..X.")),
        vec![PatternDefect::UnmatchedArcEnd(Lane::Left, 2)]
    );
    assert_eq!(
        validate_pattern(&left_lane("a.xx")),
        vec![PatternDefect::UnmatchedArcEnd(Lane::Left, 3)]
    );
}

#[test]
fn arc_left_open_at_the_end_is_unclosed() {
    assert_eq!(validate_pattern(&left_lane("a")), vec![PatternDefect::UnclosedArc(Lane::Left, 0)]);
    assert_eq!(validate_pattern(&left_lane(".c.A.")), vec![PatternDefect::UnclosedArc(Lane::Left, 3)]);
}

#[test]
fn start_while_same_height_is_open_is_unclosed() {
    assert_eq!(
        validate_pattern(&left_lane("a.a.x")),
        vec![PatternDefect::UnclosedArc(Lane::Left, 0)]
    );
    assert_eq!(
        validate_pattern(&left_lane("A.A.A..X")),
        vec![PatternDefect::UnclosedArc(Lane::Left, 0), PatternDefect::UnclosedArc(Lane::Left, 2)]
    );
}

#[test]
fn start_while_other_height_is_open_leaves_the_open_arc_unclosed() {
    assert_eq!(
        validate_pattern(&left_lane("a.A.X")),
        vec![PatternDefect::UnclosedArc(Lane::Left, 0)]
    );
    assert_eq!(
        validate_pattern(&left_lane("a.A.x.X")),
        vec![PatternDefect::UnclosedArc(Lane::Left, 0), PatternDefect::UnmatchedArcEnd(Lane::Left, 4)]
    );
}

#[test]
fn span_of_twenty_is_out_of_range() {
    let mut cells = String::from("a");
    cells.push_str(&".".repeat(19));
    cells.push('x');
    let pattern = left_lane(&cells);
    assert_eq!(pattern.rows.len(), 21);
    assert_eq!(
        validate_pattern(&pattern),
        vec![PatternDefect::ArcSpanOutOfRange(Lane::Left, 0, 20)]
    );
}

#[test]
fn span_limits_are_inclusive() {
    // span 1: too short.
    assert_eq!(
        validate_pattern(&left_lane("ax")),
        vec![PatternDefect::ArcSpanOutOfRange(Lane::Left, 0, 1)]
    );
    // span 2 and span 12: within.
    assert_eq!(validate_pattern(&left_lane("a.x")), vec![]);
    let twelve = format!("a{}x", ".".repeat(11));
    assert_eq!(validate_pattern(&left_lane(&twelve)), vec![]);
    // span 13: too long.
    let thirteen = format!(".a{}x", ".".repeat(12));
    assert_eq!(
        validate_pattern(&left_lane(&thirteen)),
        vec![PatternDefect::ArcSpanOutOfRange(Lane::Left, 1, 14)]
    );
}

#[test]
fn limits_can_be_configured() {
    let tight = ArcLimits { min: 3, max: 3 };
    assert_eq!(
        validate_pattern_with(&left_lane("a.x"), tight),
        vec![PatternDefect::ArcSpanOutOfRange(Lane::Left, 0, 2)]
    );
    assert_eq!(validate_pattern_with(&left_lane("a..x"), tight), vec![]);
    assert_eq!(
        validate_pattern_with(&left_lane("a...x"), tight),
        vec![PatternDefect::ArcSpanOutOfRange(Lane::Left, 0, 4)]
    );
    let wide = ArcLimits { min: 0, max: 100 };
    assert_eq!(validate_pattern_with(&left_lane("ax"), wide), vec![]);
    let none = ArcLimits { min: 5, max: 4 };
    assert_eq!(
        validate_pattern_with(&left_lane("a....x"), none),
        vec![PatternDefect::ArcSpanOutOfRange(Lane::Left, 0, 5)]
    );
}

#[test]
fn lanes_are_checked_independently() {
    // Left: clean arc. Middle: high arc over the same rows. Right: nothing.
    assert_eq!(validate_pattern(&grid(&["aA.", "..c", "xX."])), vec![]);
    // An end in one lane does not close an arc in another.
    assert_eq!(
        validate_pattern(&grid(&["a..", "...", ".x."])),
        vec![PatternDefect::UnclosedArc(Lane::Left, 0), PatternDefect::UnmatchedArcEnd(Lane::Middle, 2)]
    );
}

#[test]
fn every_defect_is_reported_lane_by_lane() {
    let pattern = grid(&["axA", "a.A", "..x", "x.X", "X.a"]);
    assert_eq!(
        validate_pattern(&pattern),
        vec![
            PatternDefect::UnclosedArc(Lane::Left, 0),
            PatternDefect::UnmatchedArcEnd(Lane::Left, 4),
            PatternDefect::UnmatchedArcEnd(Lane::Middle, 0),
            PatternDefect::UnclosedArc(Lane::Right, 0),
            PatternDefect::UnmatchedArcEnd(Lane::Right, 2),
            PatternDefect::UnclosedArc(Lane::Right, 4),
        ]
    );
}

#[test]
fn two_arcs_in_a_row_are_both_checked() {
    assert_eq!(validate_pattern(&left_lane("a.xA..X")), vec![]);
    assert_eq!(
        validate_pattern(&left_lane("axA..X")),
        vec![PatternDefect::ArcSpanOutOfRange(Lane::Left, 0, 1)]
    );
    assert_eq!(validate_pattern(&left_lane("a.xa.x")), vec![]);
}

#[test]
fn validating_twice_gives_the_same() {
    let pattern = grid(&["axA", "a.A", "..x", "x.X", "X.a"]);
    assert_eq!(validate_pattern(&pattern), validate_pattern(&pattern));
}

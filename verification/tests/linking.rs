use track_patterns::cell::CellContent;
use track_patterns::graph::{validate_library, LibraryDefect};
use track_patterns::pattern::{Pattern, PatternMetadata, PatternRow};
use track_patterns::store::PatternStore;

fn linked(unique_name: &str, leads_from: &[&str], leads_to: &[&str]) -> Pattern {
    Pattern {
        metadata: PatternMetadata {
            unique_name: unique_name.to_string(),
            name: unique_name.to_uppercase(),
            version: "1".to_string(),
        },
        leads_from: leads_from.iter().map(|t| t.to_string()).collect(),
        leads_to: leads_to.iter().map(|t| t.to_string()).collect(),
        rows: vec![PatternRow {
            left: CellContent::CoinLow,
            middle: CellContent::CoinLow,
            right: CellContent::CoinLow,
        }],
        start: false,
        terminal: false,
    }
}

fn first(mut pattern: Pattern) -> Pattern {
    pattern.start = true;
    pattern
}

fn last(mut pattern: Pattern) -> Pattern {
    pattern.terminal = true;
    pattern
}

fn store_of(patterns: Vec<Pattern>) -> PatternStore {
    let mut store = PatternStore::new();
    for pattern in patterns {
        store.insert(pattern).unwrap();
    }
    store
}

fn dead_end(name: &str) -> LibraryDefect {
    LibraryDefect::DeadEnd(name.to_string())
}

fn unreachable(name: &str) -> LibraryDefect {
    LibraryDefect::Unreachable(name.to_string())
}

fn orphan(tag: &str) -> LibraryDefect {
    LibraryDefect::OrphanTag(tag.to_string())
}

fn names(items: &[&str]) -> Vec<String> {
    items.iter().map(|s| s.to_string()).collect()
}

#[test]
fn a_leads_to_b_through_mid() {
    let store = store_of(vec![linked("A", &[], &["mid"]), linked("B", &["mid"], &[])]);
    let defects = validate_library(&store);
    assert!(!defects.contains(&dead_end("A")));
    assert!(!defects.contains(&unreachable("B")));
    assert_eq!(store.successors("A"), names(&["B"]));
    assert_eq!(store.successors("B"), names(&[]));
    // A has nothing leading to it and B nothing to lead to, and neither is
    // marked as a start or an end.
    assert_eq!(defects, vec![unreachable("A"), dead_end("B")]);
}

#[test]
fn a_marked_start_and_b_marked_end_make_a_sound_library() {
    let store =
        store_of(vec![first(linked("A", &[], &["mid"])), last(linked("B", &["mid"], &[]))]);
    assert_eq!(validate_library(&store), vec![]);
    assert_eq!(store.successors("A"), names(&["B"]));
}

#[test]
fn c_leading_to_an_unreceived_tag_is_a_dead_end() {
    let store = store_of(vec![first(linked("C", &[], &["end"]))]);
    let defects = validate_library(&store);
    assert!(defects.contains(&dead_end("C")));
    assert_eq!(defects, vec![dead_end("C"), orphan("end")]);
}

#[test]
fn c_among_others_is_still_a_dead_end() {
    let store = store_of(vec![
        first(linked("A", &[], &["mid"])),
        linked("C", &["mid"], &["end"]),
        last(linked("B", &["mid"], &[])),
    ]);
    assert_eq!(validate_library(&store), vec![dead_end("C"), orphan("end")]);
}

#[test]
fn terminal_pattern_is_no_dead_end() {
    let store = store_of(vec![first(last(linked("only", &[], &[])))]);
    assert_eq!(validate_library(&store), vec![]);
}

#[test]
fn start_pattern_is_not_unreachable() {
    let store = store_of(vec![first(linked("s", &[], &["t"])), last(linked("e", &["t"], &[]))]);
    assert!(!validate_library(&store).contains(&unreachable("s")));
}

#[test]
fn unflagged_pattern_without_provider_is_unreachable() {
    let store = store_of(vec![
        first(linked("s", &[], &["t"])),
        last(linked("e", &["t"], &[])),
        last(linked("lost", &["nowhere"], &[])),
    ]);
    assert_eq!(validate_library(&store), vec![unreachable("lost"), orphan("nowhere")]);
}

#[test]
fn a_pattern_does_not_follow_itself() {
    let store = store_of(vec![linked("loop", &["t"], &["t"])]);
    assert_eq!(validate_library(&store), vec![dead_end("loop"), unreachable("loop")]);
    assert_eq!(store.successors("loop"), names(&[]));
}

#[test]
fn two_patterns_may_follow_each_other() {
    let store = store_of(vec![linked("ping", &["b"], &["a"]), linked("pong", &["a"], &["b"])]);
    assert_eq!(validate_library(&store), vec![]);
    assert_eq!(store.successors("ping"), names(&["pong"]));
    assert_eq!(store.successors("pong"), names(&["ping"]));
}

#[test]
fn orphan_tags_are_reported_once_in_order_of_first_mention() {
    let store = store_of(vec![
        first(last(linked("a", &["in1", "shared"], &["out1", "shared"]))),
        first(last(linked("b", &["in2", "in1"], &["out1", "out2"]))),
    ]);
    assert_eq!(
        validate_library(&store),
        vec![orphan("in1"), orphan("out1"), orphan("in2"), orphan("out2")]
    );
}

#[test]
fn a_tag_on_both_sides_of_one_pattern_is_no_orphan() {
    let store = store_of(vec![first(last(linked("a", &["t"], &["t"])))]);
    assert_eq!(validate_library(&store), vec![]);
}

#[test]
fn empty_library_has_no_defect() {
    let store = PatternStore::new();
    assert_eq!(validate_library(&store), vec![]);
    assert_eq!(store.successors("a"), names(&[]));
}

#[test]
fn dead_end_comes_before_unreachable_and_patterns_in_store_order() {
    let store = store_of(vec![linked("z", &[], &[]), linked("a", &[], &[])]);
    assert_eq!(
        validate_library(&store),
        vec![dead_end("z"), unreachable("z"), dead_end("a"), unreachable("a")]
    );
}

#[test]
fn successors_of_a_branching_pattern() {
    let store = store_of(vec![
        linked("fork", &["back"], &["l", "r"]),
        linked("left", &["l"], &["back"]),
        linked("other", &["x"], &["y"]),
        linked("right", &["r", "l"], &["back"]),
    ]);
    assert_eq!(store.successors("fork"), names(&["left", "right"]));
    assert_eq!(store.successors("left"), names(&["fork"]));
    assert_eq!(store.successors("right"), names(&["fork"]));
    assert_eq!(store.successors("other"), names(&[]));
    assert_eq!(store.successors("missing"), names(&[]));
}

#[test]
fn validating_a_store_twice_gives_the_same() {
    let store = store_of(vec![
        first(linked("a", &["in1", "shared"], &["out1", "shared"])),
        linked("b", &["in2", "in1"], &["out1", "out2"]),
        linked("c", &["shared"], &["in2"]),
    ]);
    let once = validate_library(&store);
    let twice = validate_library(&store);
    assert_eq!(once, twice);
    assert_eq!(store.successors("a"), store.successors("a"));
    assert_eq!(store.successors("c"), store.successors("c"));
    assert_eq!(store.len(), 3);
}

use track_patterns::cell::CellContent;
use track_patterns::diagnostic::{Defect, Diagnostic};
use track_patterns::document::{Entry, Node};
use track_patterns::graph::LibraryDefect;
use track_patterns::lane::Lane;
use track_patterns::library::{check_store, TrackLibrary};
use track_patterns::load::{load_library, Loader};
use track_patterns::parser::{Field, ParseError};
use track_patterns::pattern::{Pattern, PatternMetadata, PatternRow};
use track_patterns::score::Score;
use track_patterns::store::{DuplicateName, PatternStore};
use track_patterns::validate::{ArcLimits, PatternDefect};

fn source(unique_name: &str, extra: &str, leads_from: &str, leads_to: &str, rows: &str) -> String {
    format!(
        "[metadata]\nunique_name = \"{}\"\nname = \"N\"\nversion = \"1\"\n\n[pattern_data]\n{}\nleads_from = {}\nleads_to = {}\npattern = {}\n",
        unique_name, extra, leads_from, leads_to, rows
    )
}

fn opening() -> String {
    source("opening", "start = true", "[]", "[\"mid\"]", "[[\"c\", \"c\", \"c\"]]")
}

fn middle() -> String {
    source("middle", "", "[\"mid\"]", "[\"mid\", \"out\"]", "[[\"a\", \"\", \"\"], [\"\", \"\", \"\"], [\"x\", \"\", \"\"]]")
}

fn closing() -> String {
    source("closing", "terminal = true", "[\"out\"]", "[]", "[[\"r\", \"b\", \"r\"]]")
}

fn built(unique_name: &str, leads_from: &[&str], leads_to: &[&str], start: bool, terminal: bool) -> Pattern {
    Pattern {
        metadata: PatternMetadata {
            unique_name: unique_name.to_string(),
            name: "N".to_string(),
            version: "1".to_string(),
        },
        leads_from: leads_from.iter().map(|t| t.to_string()).collect(),
        leads_to: leads_to.iter().map(|t| t.to_string()).collect(),
        rows: vec![PatternRow {
            left: CellContent::CoinLow,
            middle: CellContent::CoinLow,
            right: CellContent::CoinLow,
        }],
        start,
        terminal,
    }
}

fn line(pattern: Option<&str>, defect: Defect) -> Diagnostic {
    Diagnostic { pattern: pattern.map(|s| s.to_string()), defect }
}

fn report_of(result: Result<TrackLibrary, Vec<Diagnostic>>) -> Vec<Diagnostic> {
    match result {
        Ok(_) => panic!("expected a report"),
        Err(report) => report,
    }
}

fn library_of(result: Result<TrackLibrary, Vec<Diagnostic>>) -> TrackLibrary {
    match result {
        Ok(library) => library,
        Err(report) => panic!("expected a library, got {:?}", report),
    }
}

#[test]
fn sound_sources_load_into_a_library() {
    let library = library_of(load_library(&vec![opening(), middle(), closing()], ArcLimits::standard()));
    assert_eq!(library.all().len(), 3);
    assert_eq!(library.store().len(), 3);
    assert_eq!(library.get("middle").unwrap().rows.len(), 3);
    assert_eq!(library.get("nothing"), None);
    assert_eq!(library.successors("opening"), vec!["middle".to_string()]);
    assert_eq!(library.successors("middle"), vec!["closing".to_string()]);
    assert_eq!(library.successors("closing"), Vec::<String>::new());
    assert_eq!(library.successors("nothing"), Vec::<String>::new());
}

#[test]
fn cached_successors_agree_with_the_store() {
    let mut store = PatternStore::new();
    store.insert(built("fork", &["back"], &["l", "r"], true, false)).unwrap();
    store.insert(built("left", &["l"], &["back"], false, false)).unwrap();
    store.insert(built("right", &["r", "l"], &["back"], false, false)).unwrap();
    let library = library_of(TrackLibrary::open(store, ArcLimits::standard()));
    for name in ["fork", "left", "right", "other"] {
        assert_eq!(library.successors(name), library.store().successors(name));
    }
    assert_eq!(library.successors("fork"), vec!["left".to_string(), "right".to_string()]);
    assert_eq!(library.successors("left"), vec!["fork".to_string()]);
}

#[test]
fn an_empty_load_is_an_empty_library() {
    let library = library_of(load_library(&vec![], ArcLimits::standard()));
    assert!(library.all().is_empty());
}

#[test]
fn a_text_that_is_no_pattern_is_skipped_and_reported() {
    let broken = "[metadata]\nname = \"N\"\nversion = \"1\"\n\n[pattern_data]\nleads_from = []\nleads_to = []\npattern = []\n".to_string();
    let report = report_of(load_library(
        &vec![opening(), broken, middle(), closing()],
        ArcLimits::standard(),
    ));
    assert_eq!(
        report,
        vec![line(None, Defect::Parse(ParseError::MissingField(Field::UniqueName)))]
    );
}

#[test]
fn a_duplicate_is_turned_away_and_reported() {
    let again = source("middle", "", "[\"mid\"]", "[\"mid\", \"out\"]", "[]");
    let report = report_of(load_library(
        &vec![opening(), middle(), again, closing()],
        ArcLimits::standard(),
    ));
    // The second `middle` has no rows; had it been kept, that would have
    // been reported too.
    assert_eq!(
        report,
        vec![line(Some("middle"), Defect::Duplicate(DuplicateName { name: "middle".to_string() }))]
    );
}

#[test]
fn every_kind_of_defect_is_collected_in_order() {
    let unknown = source("bad", "", "[]", "[]", "[[\"c\", \"?\", \"c\"]]");
    let arcs = source("arcs", "start = true", "[]", "[\"mid\"]", "[[\"a\", \"X\", \"\"], [\"x\", \"\", \"A\"]]");
    let report = report_of(load_library(
        &vec![unknown, arcs, opening(), opening(), middle()],
        ArcLimits::standard(),
    ));
    assert_eq!(
        report,
        vec![
            line(None, Defect::Parse(ParseError::UnknownToken(0, Lane::Middle, "?".to_string()))),
            line(Some("opening"), Defect::Duplicate(DuplicateName { name: "opening".to_string() })),
            line(Some("arcs"), Defect::Pattern(PatternDefect::ArcSpanOutOfRange(Lane::Left, 0, 1))),
            line(Some("arcs"), Defect::Pattern(PatternDefect::UnmatchedArcEnd(Lane::Middle, 0))),
            line(Some("arcs"), Defect::Pattern(PatternDefect::UnclosedArc(Lane::Right, 1))),
            line(Some("middle"), Defect::Library(LibraryDefect::DeadEnd("middle".to_string()))),
            line(None, Defect::Library(LibraryDefect::OrphanTag("out".to_string()))),
        ]
    );
}

#[test]
fn loader_takes_texts_documents_and_readings() {
    let mut loader = Loader::new();
    loader.add_text(&opening());
    loader.add(Ok(built("middle", &["mid"], &["out"], false, false)));
    loader.add(Err(ParseError::EmptyField(Field::Version)));
    let doc = Node::Table(vec![
        Entry {
            key: "metadata".to_string(),
            value: Node::Table(vec![
                Entry { key: "unique_name".to_string(), value: Node::Text("closing".to_string()) },
                Entry { key: "name".to_string(), value: Node::Text("N".to_string()) },
                Entry { key: "version".to_string(), value: Node::Text("1".to_string()) },
            ]),
        },
        Entry {
            key: "data".to_string(),
            value: Node::Table(vec![
                Entry { key: "leads_from".to_string(), value: Node::List(vec![Node::Text("out".to_string())]) },
                Entry { key: "leads_to".to_string(), value: Node::List(vec![]) },
                Entry { key: "terminal".to_string(), value: Node::Flag(true) },
                Entry {
                    key: "pattern".to_string(),
                    value: Node::List(vec![Node::List(vec![
                        Node::Text("c".to_string()),
                        Node::Text("".to_string()),
                        Node::Text("c".to_string()),
                    ])]),
                },
            ]),
        },
    ]);
    loader.add_document(&doc);
    let report = report_of(loader.finish(ArcLimits::standard()));
    assert_eq!(report, vec![line(None, Defect::Parse(ParseError::EmptyField(Field::Version)))]);
}

#[test]
fn loader_without_faults_finishes_with_the_library() {
    let mut loader = Loader::new();
    loader.add_text(&opening());
    loader.add_text(&middle());
    loader.add_text(&closing());
    let library = library_of(loader.finish(ArcLimits::standard()));
    let names: Vec<&str> = library.all().iter().map(|p| p.metadata.unique_name.as_str()).collect();
    assert_eq!(names, vec!["opening", "middle", "closing"]);
}

#[test]
fn limits_are_handed_on_to_the_check_of_each_pattern() {
    let sources = vec![opening(), middle(), closing()];
    let report = report_of(load_library(&sources, ArcLimits { min: 3, max: 5 }));
    assert_eq!(
        report,
        vec![line(Some("middle"), Defect::Pattern(PatternDefect::ArcSpanOutOfRange(Lane::Left, 0, 2)))]
    );
}

#[test]
fn open_reports_what_check_store_reports() {
    let mut store = PatternStore::new();
    store.insert(built("a", &[], &["t"], false, false)).unwrap();
    store.insert(built("b", &["t"], &[], false, false)).unwrap();
    let expected = vec![
        line(Some("a"), Defect::Library(LibraryDefect::Unreachable("a".to_string()))),
        line(Some("b"), Defect::Library(LibraryDefect::DeadEnd("b".to_string()))),
    ];
    assert_eq!(check_store(&store, ArcLimits::standard()), expected);
    assert_eq!(report_of(TrackLibrary::open(store, ArcLimits::standard())), expected);
}

#[test]
fn diagnostics_name_their_pattern() {
    assert_eq!(
        Diagnostic::of_parse(ParseError::MalformedRow(1, 2)),
        line(None, Defect::Parse(ParseError::MalformedRow(1, 2)))
    );
    assert_eq!(
        Diagnostic::of_duplicate(DuplicateName { name: "a".to_string() }),
        line(Some("a"), Defect::Duplicate(DuplicateName { name: "a".to_string() }))
    );
    assert_eq!(
        Diagnostic::of_pattern(&"p".to_string(), PatternDefect::EmptyPattern),
        line(Some("p"), Defect::Pattern(PatternDefect::EmptyPattern))
    );
    assert_eq!(
        Diagnostic::of_library(LibraryDefect::DeadEnd("d".to_string())),
        line(Some("d"), Defect::Library(LibraryDefect::DeadEnd("d".to_string())))
    );
    assert_eq!(
        Diagnostic::of_library(LibraryDefect::Unreachable("u".to_string())),
        line(Some("u"), Defect::Library(LibraryDefect::Unreachable("u".to_string())))
    );
    assert_eq!(
        Diagnostic::of_library(LibraryDefect::OrphanTag("t".to_string())),
        line(None, Defect::Library(LibraryDefect::OrphanTag("t".to_string())))
    );
}

#[test]
fn score_counts_coins() {
    let mut tally = Score::new();
    assert_eq!(tally, Score { coins: 0, score: 0 });
    assert_eq!(Score::default(), tally);
    tally.collect_coin();
    tally.collect_coin();
    assert_eq!(tally, Score { coins: 2, score: 0 });
}

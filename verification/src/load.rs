//! Loading a library: patterns are taken in one by one, in any number,
//! and checked together once all of them are in.

use crate::diagnostic::{reports, DefectView, Diagnostic, DiagnosticView};
use crate::document::Node;
use crate::library::{check_store, store_reports, TrackLibrary};
use crate::parser::{decode, decoded, parse, parsed, ParseError, ParseFault};
use crate::pattern::{texts, Pattern, PatternView};
use crate::store::{has_name, names_distinct, PatternStore};
use crate::validate::ArcLimits;
use vstd::prelude::*;
use vstd::string::*;

verus! {

/// How far loading has come: the patterns taken in, and what had to be
/// reported on the way.
pub struct LoadState {
    pub library: Seq<PatternView>,
    pub report: Seq<DiagnosticView>,
}

/// What has been reported of a text that is no pattern.
pub open spec fn unread(fault: ParseFault) -> DiagnosticView {
    DiagnosticView { pattern: None, defect: DefectView::Parse(fault) }
}

/// What has been reported of a pattern whose unique name was taken.
pub open spec fn turned_away(name: Seq<char>) -> DiagnosticView {
    DiagnosticView { pattern: Some(name), defect: DefectView::Duplicate(name) }
}

/// Loading after one more reading. A text that is no pattern is passed
/// over and reported. A pattern whose unique name is taken is turned away
/// and reported: the pattern that came first stays. Any other pattern is
/// taken in.
pub open spec fn taken_in(state: LoadState, reading: Result<PatternView, ParseFault>) -> LoadState {
    match reading {
        Err(fault) => LoadState { library: state.library, report: state.report.push(unread(fault)) },
        Ok(pattern) => if has_name(state.library, pattern.unique_name) {
            LoadState {
                library: state.library,
                report: state.report.push(turned_away(pattern.unique_name)),
            }
        } else {
            LoadState { library: state.library.push(pattern), report: state.report }
        },
    }
}

/// A reading as plain mathematical values.
pub open spec fn reading_view(reading: Result<Pattern, ParseError>) -> Result<
    PatternView,
    ParseFault,
> {
    match reading {
        Ok(pattern) => Ok(pattern@),
        Err(error) => Err(error@),
    }
}

/// How loading ends: with the library, where nothing at all had to be
/// reported, of the readings or of the store; else with the whole report,
/// the readings first.
pub open spec fn finished(state: LoadState, limits: ArcLimits) -> Result<
    Seq<PatternView>,
    Seq<DiagnosticView>,
> {
    let report = state.report + store_reports(state.library, limits);
    if report.len() == 0 {
        Ok(state.library)
    } else {
        Err(report)
    }
}

/// Loading after the first `k` of some texts.
pub open spec fn gathered(sources: Seq<Seq<char>>, k: int) -> LoadState
    decreases k,
{
    if k <= 0 {
        LoadState { library: Seq::empty(), report: Seq::empty() }
    } else {
        taken_in(gathered(sources, k - 1), parsed(sources[k - 1]))
    }
}

/// A library that is being loaded.
pub struct Loader {
    store: PatternStore,
    report: Vec<Diagnostic>,
}

impl View for Loader {
    type V = LoadState;

    closed spec fn view(&self) -> LoadState {
        LoadState { library: self.store@, report: reports(self.report@) }
    }
}

impl Loader {
    /// Loading before anything was read.
    pub fn new() -> (loader: Loader)
        ensures
            loader@ == (LoadState { library: Seq::empty(), report: Seq::empty() }),
    {
        let loader = Loader { store: PatternStore::new(), report: Vec::new() };
        assert(reports(loader.report@) =~= Seq::<DiagnosticView>::empty());
        loader
    }

    /// Takes in what one reading gave.
    pub fn add(&mut self, reading: Result<Pattern, ParseError>)
        ensures
            final(self)@ == taken_in(old(self)@, reading_view(reading)),
    {
        let ghost before = self.report@;
        match reading {
            Err(error) => {
                self.report.push(Diagnostic::of_parse(error));
                assert(reports(self.report@) =~= reports(before).push(unread(error@)));
            },
            Ok(pattern) => {
                match self.store.insert(pattern) {
                    Ok(()) => {},
                    Err(duplicate) => {
                        self.report.push(Diagnostic::of_duplicate(duplicate));
                        assert(reports(self.report@) =~= reports(before).push(
                            turned_away(pattern@.unique_name),
                        ));
                    },
                }
            },
        }
    }

    /// Reads one text and takes in what it gave.
    pub fn add_text(&mut self, text: &str)
        ensures
            final(self)@ == taken_in(old(self)@, parsed(text@)),
    {
        self.add(parse(text));
    }

    /// Reads one document and takes in what it gave.
    pub fn add_document(&mut self, doc: &Node)
        ensures
            final(self)@ == taken_in(old(self)@, decoded(*doc)),
    {
        self.add(decode(doc));
    }

    /// Ends loading: what was taken in is checked, every pattern and the
    /// whole. Where nothing had to be reported, before or now, the library
    /// is ready; else everything that was reported comes back.
    pub fn finish(self, limits: ArcLimits) -> (r: Result<TrackLibrary, Vec<Diagnostic>>)
        ensures
            match finished(self@, limits) {
                Ok(library) => r is Ok && r->Ok_0@ == library,
                Err(report) => r is Err && reports(r->Err_0@) == report,
            },
    {
        let Loader { store, report } = self;
        let mut report = report;
        let mut found = check_store(&store, limits);
        report.append(&mut found);
        if report.len() == 0 {
            Ok(TrackLibrary::index(store))
        } else {
            Err(report)
        }
    }
}

/// Loads a library from the texts of its patterns, in their order.
pub fn load_library(sources: &Vec<String>, limits: ArcLimits) -> (r: Result<
    TrackLibrary,
    Vec<Diagnostic>,
>)
    ensures
        match finished(gathered(texts(sources@), sources@.len() as int), limits) {
            Ok(library) => r is Ok && r->Ok_0@ == library,
            Err(report) => r is Err && reports(r->Err_0@) == report,
        },
{
    let mut loader = Loader::new();
    let mut i: usize = 0;
    while i < sources.len()
        invariant
            i <= sources.len(),
            loader@ == gathered(texts(sources@), i as int),
        decreases sources.len() - i,
    {
        loader.add_text(sources[i].as_str());
        i += 1;
    }
    loader.finish(limits)
}

/// Taking in one more reading leaves the unique names of the library
/// distinct.
pub proof fn lemma_taken_in_keeps_names_distinct(
    state: LoadState,
    reading: Result<PatternView, ParseFault>,
)
    requires
        names_distinct(state.library),
    ensures
        names_distinct(taken_in(state, reading).library),
{
}

/// However many texts are loaded, and whatever they hold, no two patterns
/// of the library share a unique name.
pub proof fn lemma_gathered_names_distinct(sources: Seq<Seq<char>>, k: int)
    ensures
        names_distinct(gathered(sources, k).library),
    decreases k,
{
    if k > 0 {
        lemma_gathered_names_distinct(sources, k - 1);
    }
}

} // verus!

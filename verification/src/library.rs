//! A store that has passed every check, ready for a track to be built
//! from: it keeps, for each pattern, the patterns that may follow it.

use crate::diagnostic::{reports, subject, DefectView, Diagnostic, DiagnosticView};
use crate::graph::{
    faults, follows, library_faults, named, successor_names, successors_before, validate_library,
};
use crate::pattern::{texts, Pattern, PatternView};
use crate::search::lemma_first_index_found;
use crate::store::{names_distinct, views, PatternStore};
use crate::validate::{pattern_defects, validate_pattern_with, ArcLimits};
use vstd::prelude::*;
use vstd::string::*;

verus! {

/// The defects of one pattern's rows, as lines of a report under the
/// pattern's unique name.
pub open spec fn pattern_reports(pattern: PatternView, limits: ArcLimits) -> Seq<DiagnosticView> {
    let defects = pattern_defects(pattern.rows, limits);
    Seq::new(
        defects.len(),
        |k: int|
            DiagnosticView {
                pattern: Some(pattern.unique_name),
                defect: DefectView::Pattern(defects[k]),
            },
    )
}

/// The defects of the rows of the first `k` patterns, pattern by pattern.
pub open spec fn row_reports(library: Seq<PatternView>, limits: ArcLimits, k: int) -> Seq<
    DiagnosticView,
>
    decreases k,
{
    if k <= 0 {
        Seq::empty()
    } else {
        row_reports(library, limits, k - 1) + pattern_reports(library[k - 1], limits)
    }
}

/// The defects of a library as a whole, as lines of a report.
pub open spec fn link_reports(library: Seq<PatternView>) -> Seq<DiagnosticView> {
    let found = library_faults(library);
    Seq::new(
        found.len(),
        |k: int| DiagnosticView { pattern: subject(found[k]), defect: DefectView::Library(found[k]) },
    )
}

/// Everything that is wrong with a library: the defects of each pattern's
/// rows, in the order of the patterns, then the defects of the library as a
/// whole.
pub open spec fn store_reports(library: Seq<PatternView>, limits: ArcLimits) -> Seq<
    DiagnosticView,
> {
    row_reports(library, limits, library.len() as int) + link_reports(library)
}

/// Checks every pattern of a store, and the store as a whole. Every defect
/// is reported.
pub fn check_store(store: &PatternStore, limits: ArcLimits) -> (report: Vec<Diagnostic>)
    ensures
        reports(report@) == store_reports(store@, limits),
{
    let ghost library = store@;
    let patterns = store.all();
    let mut report: Vec<Diagnostic> = Vec::new();
    let mut i: usize = 0;
    while i < patterns.len()
        invariant
            i <= patterns.len(),
            library == views(patterns@),
            reports(report@) == row_reports(library, limits, i as int),
        decreases patterns.len() - i,
    {
        let pattern = &patterns[i];
        let found = validate_pattern_with(pattern, limits);
        let ghost before = report@;
        let mut k: usize = 0;
        while k < found.len()
            invariant
                k <= found.len(),
                found@ == pattern_defects(pattern@.rows, limits),
                reports(report@) == reports(before) + pattern_reports(pattern@, limits).take(
                    k as int,
                ),
            decreases found.len() - k,
        {
            let ghost so_far = report@;
            report.push(Diagnostic::of_pattern(&pattern.metadata.unique_name, found[k]));
            proof {
                let lines = pattern_reports(pattern@, limits);
                assert(reports(report@) =~= reports(so_far).push(lines[k as int]));
            }
            k += 1;
        }
        i += 1;
    }
    let found = validate_library(store);
    let ghost rows = report@;
    let ghost lines = link_reports(library);
    for defect in it: found
        invariant
            it.seq() == found@,
            faults(found@) == library_faults(library),
            lines == link_reports(library),
            reports(report@) == reports(rows) + lines.take(it.index() as int),
    {
        let ghost so_far = report@;
        let ghost k = it.index() as int;
        report.push(Diagnostic::of_library(defect));
        proof {
            assert(reports(report@) =~= reports(so_far).push(lines[k]));
        }
    }
    report
}

/// The positions of the patterns among the first `k` that may follow the
/// pattern at `i`.
pub open spec fn followers_before(library: Seq<PatternView>, i: int, k: int) -> Seq<usize>
    decreases k,
{
    if k <= 0 {
        Seq::empty()
    } else {
        let earlier = followers_before(library, i, k - 1);
        if follows(library, i, k - 1) {
            earlier.push((k - 1) as usize)
        } else {
            earlier
        }
    }
}

/// The unique names of the patterns at some positions.
pub open spec fn names_at(library: Seq<PatternView>, positions: Seq<usize>) -> Seq<Seq<char>> {
    Seq::new(positions.len(), |m: int| library[positions[m] as int].unique_name)
}

/// The patterns at the positions that follow a pattern are its successors.
proof fn lemma_followers_are_successors(library: Seq<PatternView>, i: int, k: int)
    requires
        0 <= k <= library.len() <= usize::MAX,
    ensures
        names_at(library, followers_before(library, i, k)) == successors_before(library, i, k),
        forall|m: int|
            0 <= m < followers_before(library, i, k).len() ==> #[trigger] followers_before(
                library,
                i,
                k,
            )[m] < k,
    decreases k,
{
    if k > 0 {
        lemma_followers_are_successors(library, i, k - 1);
    }
}

/// The positions of the patterns that may follow the pattern at `i`.
fn followers_of(patterns: &[Pattern], i: usize) -> (row: Vec<usize>)
    requires
        i < patterns@.len(),
    ensures
        row@ == followers_before(views(patterns@), i as int, patterns@.len() as int),
{
    let ghost library = views(patterns@);
    let mut row: Vec<usize> = Vec::new();
    let mut j: usize = 0;
    while j < patterns.len()
        invariant
            j <= patterns.len(),
            i < patterns@.len(),
            library == views(patterns@),
            row@ == followers_before(library, i as int, j as int),
        decreases patterns.len() - j,
    {
        if j != i && patterns[i].leads_into(&patterns[j]) {
            row.push(j);
        }
        j += 1;
    }
    row
}

/// A store that has passed every check, with the patterns that may follow
/// each of its patterns. Its view is that of the store.
pub struct TrackLibrary {
    store: PatternStore,
    following: Vec<Vec<usize>>,
}

impl View for TrackLibrary {
    type V = Seq<PatternView>;

    closed spec fn view(&self) -> Seq<PatternView> {
        self.store@
    }
}

impl TrackLibrary {
    #[verifier::type_invariant]
    closed spec fn coherent(self) -> bool {
        &&& self.following@.len() == self.store@.len()
        &&& forall|i: int|
            0 <= i < self.following@.len() ==> (#[trigger] self.following@[i])@
                == followers_before(self.store@, i, self.store@.len() as int)
    }

    /// Works out, once, which patterns may follow which. Only a store that
    /// has been checked is handed to this.
    pub(crate) fn index(store: PatternStore) -> (library: TrackLibrary)
        ensures
            library@ == store@,
    {
        let mut following: Vec<Vec<usize>> = Vec::new();
        let count = store.len();
        let mut i: usize = 0;
        while i < count
            invariant
                i <= count,
                count == store@.len(),
                following@.len() == i,
                forall|m: int|
                    0 <= m < i ==> (#[trigger] following@[m])@ == followers_before(
                        store@,
                        m,
                        store@.len() as int,
                    ),
            decreases count - i,
        {
            let patterns = store.all();
            following.push(followers_of(patterns, i));
            i += 1;
        }
        TrackLibrary { store, following }
    }

    /// Checks a store, and where nothing is wrong with it, makes it ready
    /// for a track to be built from. Where anything is wrong, all of it is
    /// reported.
    pub fn open(store: PatternStore, limits: ArcLimits) -> (r: Result<TrackLibrary, Vec<Diagnostic>>)
        ensures
            if store_reports(store@, limits).len() == 0 {
                r is Ok && r->Ok_0@ == store@
            } else {
                r is Err && reports(r->Err_0@) == store_reports(store@, limits)
            },
    {
        let report = check_store(&store, limits);
        if report.len() == 0 {
            Ok(TrackLibrary::index(store))
        } else {
            Err(report)
        }
    }

    /// The store that was checked.
    pub fn store(&self) -> (store: &PatternStore)
        ensures
            store@ == self@,
    {
        &self.store
    }

    /// The pattern of a unique name.
    pub fn get(&self, name: &str) -> (r: Option<&Pattern>)
        ensures
            names_distinct(self@),
            match r {
                Some(pattern) => pattern@.unique_name == name@ && self@.contains(pattern@),
                None => !crate::store::has_name(self@, name@),
            },
    {
        self.store.get(name)
    }

    /// Every pattern, in the order in which the store took them in.
    pub fn all(&self) -> (patterns: &[Pattern])
        ensures
            views(patterns@) == self@,
            names_distinct(self@),
    {
        self.store.all()
    }

    /// The unique names of the patterns that may follow the pattern of a
    /// unique name on a track, as the store's own `successors` gives them.
    pub fn successors(&self, name: &str) -> (names: Vec<String>)
        ensures
            texts(names@) == successor_names(self@, name@),
    {
        proof {
            use_type_invariant(self);
        }
        let ghost library = self@;
        let mut names: Vec<String> = Vec::new();
        match self.store.position(name) {
            None => {},
            Some(i) => {
                let patterns = self.store.all();
                let count = patterns.len();
                let row = &self.following[i];
                proof {
                    lemma_first_index_found(library, named(name@), i as int);
                    lemma_followers_are_successors(library, i as int, library.len() as int);
                }
                let mut m: usize = 0;
                while m < row.len()
                    invariant
                        m <= row.len(),
                        library == views(patterns@),
                        forall|k: int| 0 <= k < row@.len() ==> #[trigger] row@[k] < library.len(),
                        texts(names@) == names_at(library, row@).take(m as int),
                    decreases row.len() - m,
                {
                    names.push(patterns[row[m]].metadata.unique_name.clone());
                    proof {
                        let all = names_at(library, row@);
                        assert(all.take(m + 1) =~= all.take(m as int).push(all[m as int]));
                    }
                    m += 1;
                }
            },
        }
        names
    }
}

/// Where nothing is reported of the first `k` patterns' rows, none of them
/// has a defect.
proof fn lemma_no_row_reports(library: Seq<PatternView>, limits: ArcLimits, k: int)
    requires
        0 <= k <= library.len(),
        row_reports(library, limits, k).len() == 0,
    ensures
        forall|i: int|
            0 <= i < k ==> pattern_defects((#[trigger] library[i]).rows, limits).len() == 0,
    decreases k,
{
    if k > 0 {
        lemma_no_row_reports(library, limits, k - 1);
    }
}

/// A store of which nothing is reported has no defect: none in the rows of
/// any of its patterns, and none as a library.
pub proof fn lemma_nothing_reported(library: Seq<PatternView>, limits: ArcLimits)
    requires
        store_reports(library, limits).len() == 0,
    ensures
        library_faults(library).len() == 0,
        forall|i: int|
            0 <= i < library.len() ==> pattern_defects((#[trigger] library[i]).rows, limits).len()
                == 0,
{
    lemma_no_row_reports(library, limits, library.len() as int);
}

} // verus!

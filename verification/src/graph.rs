//! Checking a library of patterns as a whole: which pattern may follow
//! which, and what can never be reached or left.

use crate::pattern::{has_tag, texts, Pattern, PatternView};
use crate::search::{first_index, lemma_first_index_found};
use crate::store::{views, PatternStore};
use vstd::prelude::*;
use vstd::string::*;

verus! {

/// One way in which a library of patterns does not hang together.
#[derive(Clone, Debug, PartialEq, Eq)]
pub enum LibraryDefect {
    /// No other pattern may follow the pattern of this unique name, and it
    /// is not marked as one that a track may end with.
    DeadEnd(String),
    /// The pattern of this unique name may follow no other pattern, and it
    /// is not marked as one that a track may begin with.
    Unreachable(String),
    /// Some pattern leads to this tag and none leads from it, or some
    /// pattern leads from it and none leads to it.
    OrphanTag(String),
}

/// A `LibraryDefect` as plain mathematical values.
pub enum LibraryFault {
    DeadEnd(Seq<char>),
    Unreachable(Seq<char>),
    OrphanTag(Seq<char>),
}

impl View for LibraryDefect {
    type V = LibraryFault;

    open spec fn view(&self) -> LibraryFault {
        match *self {
            LibraryDefect::DeadEnd(name) => LibraryFault::DeadEnd(name@),
            LibraryDefect::Unreachable(name) => LibraryFault::Unreachable(name@),
            LibraryDefect::OrphanTag(tag) => LibraryFault::OrphanTag(tag@),
        }
    }
}

/// A list of defects as plain mathematical values.
pub open spec fn faults(defects: Seq<LibraryDefect>) -> Seq<LibraryFault> {
    Seq::new(defects.len(), |i: int| defects[i]@)
}

/// Whether the pattern at `j` may follow the pattern at `i`: they are two
/// patterns, and the first leads to a tag that the second leads from.
pub open spec fn follows(library: Seq<PatternView>, i: int, j: int) -> bool {
    &&& 0 <= i < library.len()
    &&& 0 <= j < library.len()
    &&& i != j
    &&& library[i].leads_into(library[j])
}

/// Whether some pattern may follow the pattern at `i`.
pub open spec fn has_successor(library: Seq<PatternView>, i: int) -> bool {
    exists|j: int| #[trigger] follows(library, i, j)
}

/// Whether the pattern at `i` may follow some pattern.
pub open spec fn has_predecessor(library: Seq<PatternView>, i: int) -> bool {
    exists|j: int| #[trigger] follows(library, j, i)
}

/// Whether a track that reaches the pattern at `i` is stuck there.
pub open spec fn is_dead_end(library: Seq<PatternView>, i: int) -> bool {
    !library[i].terminal && !has_successor(library, i)
}

/// Whether no track can reach the pattern at `i`.
pub open spec fn is_unreachable(library: Seq<PatternView>, i: int) -> bool {
    !library[i].start && !has_predecessor(library, i)
}

/// Whether some pattern leads to a tag.
pub open spec fn provided(library: Seq<PatternView>, tag: Seq<char>) -> bool {
    exists|i: int| 0 <= i < library.len() && (#[trigger] library[i]).leads_to.contains(tag)
}

/// Whether some pattern leads from a tag.
pub open spec fn received(library: Seq<PatternView>, tag: Seq<char>) -> bool {
    exists|i: int| 0 <= i < library.len() && (#[trigger] library[i]).leads_from.contains(tag)
}

/// Whether a tag can never be passed through: it occurs on one side only.
pub open spec fn is_orphan(library: Seq<PatternView>, tag: Seq<char>) -> bool {
    provided(library, tag) != received(library, tag)
}

/// The dead ends and unreachable patterns among the first `k` patterns, in
/// the order of the patterns; of one pattern the dead end comes first.
pub open spec fn link_faults(library: Seq<PatternView>, k: int) -> Seq<LibraryFault>
    decreases k,
{
    if k <= 0 {
        Seq::empty()
    } else {
        let earlier = link_faults(library, k - 1);
        let name = library[k - 1].unique_name;
        let stuck = if is_dead_end(library, k - 1) {
            earlier.push(LibraryFault::DeadEnd(name))
        } else {
            earlier
        };
        if is_unreachable(library, k - 1) {
            stuck.push(LibraryFault::Unreachable(name))
        } else {
            stuck
        }
    }
}

/// Every tag of the first `k` patterns, in the order of the patterns; of
/// one pattern the tags that it leads from come first.
pub open spec fn all_tags(library: Seq<PatternView>, k: int) -> Seq<Seq<char>>
    decreases k,
{
    if k <= 0 {
        Seq::empty()
    } else {
        all_tags(library, k - 1) + library[k - 1].leads_from + library[k - 1].leads_to
    }
}

/// The orphans among a list of tags, each once, in the order in which the
/// list first names them.
pub open spec fn orphans_among(library: Seq<PatternView>, tags: Seq<Seq<char>>) -> Seq<Seq<char>>
    decreases tags.len(),
{
    if tags.len() == 0 {
        Seq::empty()
    } else {
        let earlier = orphans_among(library, tags.drop_last());
        if is_orphan(library, tags.last()) && !earlier.contains(tags.last()) {
            earlier.push(tags.last())
        } else {
            earlier
        }
    }
}

/// The orphan tags of a library as faults.
pub open spec fn orphan_faults(tags: Seq<Seq<char>>) -> Seq<LibraryFault> {
    Seq::new(tags.len(), |i: int| LibraryFault::OrphanTag(tags[i]))
}

/// Every defect of a library: the dead ends and unreachable patterns in
/// the order of the patterns, then the orphan tags.
pub open spec fn library_faults(library: Seq<PatternView>) -> Seq<LibraryFault> {
    link_faults(library, library.len() as int) + orphan_faults(
        orphans_among(library, all_tags(library, library.len() as int)),
    )
}

/// Whether some pattern may follow the pattern at `i`.
fn successor_exists(patterns: &[Pattern], i: usize) -> (found: bool)
    requires
        i < patterns@.len(),
    ensures
        found == has_successor(views(patterns@), i as int),
{
    let ghost library = views(patterns@);
    let mut j: usize = 0;
    while j < patterns.len()
        invariant
            j <= patterns.len(),
            i < patterns@.len(),
            library == views(patterns@),
            forall|m: int| 0 <= m < j ==> !#[trigger] follows(library, i as int, m),
        decreases patterns.len() - j,
    {
        if j != i && patterns[i].leads_into(&patterns[j]) {
            assert(follows(library, i as int, j as int));
            return true;
        }
        j += 1;
    }
    false
}

/// Whether the pattern at `i` may follow some pattern.
fn predecessor_exists(patterns: &[Pattern], i: usize) -> (found: bool)
    requires
        i < patterns@.len(),
    ensures
        found == has_predecessor(views(patterns@), i as int),
{
    let ghost library = views(patterns@);
    let mut j: usize = 0;
    while j < patterns.len()
        invariant
            j <= patterns.len(),
            i < patterns@.len(),
            library == views(patterns@),
            forall|m: int| 0 <= m < j ==> !#[trigger] follows(library, m, i as int),
        decreases patterns.len() - j,
    {
        if j != i && patterns[j].leads_into(&patterns[i]) {
            assert(follows(library, j as int, i as int));
            return true;
        }
        j += 1;
    }
    false
}

/// Whether some pattern leads to a tag.
fn is_provided(patterns: &[Pattern], tag: &String) -> (found: bool)
    ensures
        found == provided(views(patterns@), tag@),
{
    let ghost library = views(patterns@);
    let mut i: usize = 0;
    while i < patterns.len()
        invariant
            i <= patterns.len(),
            library == views(patterns@),
            forall|m: int| 0 <= m < i ==> !(#[trigger] library[m]).leads_to.contains(tag@),
        decreases patterns.len() - i,
    {
        if has_tag(&patterns[i].leads_to, tag) {
            assert(library[i as int].leads_to.contains(tag@));
            return true;
        }
        i += 1;
    }
    false
}

/// Whether some pattern leads from a tag.
fn is_received(patterns: &[Pattern], tag: &String) -> (found: bool)
    ensures
        found == received(views(patterns@), tag@),
{
    let ghost library = views(patterns@);
    let mut i: usize = 0;
    while i < patterns.len()
        invariant
            i <= patterns.len(),
            library == views(patterns@),
            forall|m: int| 0 <= m < i ==> !(#[trigger] library[m]).leads_from.contains(tag@),
        decreases patterns.len() - i,
    {
        if has_tag(&patterns[i].leads_from, tag) {
            assert(library[i as int].leads_from.contains(tag@));
            return true;
        }
        i += 1;
    }
    false
}

/// Adds to `found` the orphans among `tags` that it does not hold yet.
fn note_orphans(
    patterns: &[Pattern],
    tags: &Vec<String>,
    found: &mut Vec<String>,
    Ghost(seen): Ghost<Seq<Seq<char>>>,
)
    requires
        texts(old(found)@) == orphans_among(views(patterns@), seen),
    ensures
        texts(final(found)@) == orphans_among(views(patterns@), seen + texts(tags@)),
{
    let ghost library = views(patterns@);
    let mut i: usize = 0;
    while i < tags.len()
        invariant
            i <= tags.len(),
            library == views(patterns@),
            texts(found@) == orphans_among(library, seen + texts(tags@).take(i as int)),
        decreases tags.len() - i,
    {
        let tag = &tags[i];
        proof {
            let grown = seen + texts(tags@).take(i + 1);
            assert(grown.drop_last() =~= seen + texts(tags@).take(i as int));
        }
        if is_provided(patterns, tag) != is_received(patterns, tag) && !has_tag(found, tag) {
            found.push(tag.clone());
        }
        i += 1;
    }
    assert(texts(tags@).take(i as int) =~= texts(tags@));
}

/// Checks a library as a whole. Every defect is reported: for each pattern,
/// in the order of the store, that it is a dead end and that it is
/// unreachable; then each tag that occurs on one side only.
pub fn validate_library(store: &PatternStore) -> (defects: Vec<LibraryDefect>)
    ensures
        faults(defects@) == library_faults(store@),
{
    let patterns = store.all();
    let ghost library = store@;
    let mut defects: Vec<LibraryDefect> = Vec::new();
    let mut i: usize = 0;
    while i < patterns.len()
        invariant
            i <= patterns.len(),
            library == views(patterns@),
            faults(defects@) == link_faults(library, i as int),
        decreases patterns.len() - i,
    {
        let pattern = &patterns[i];
        if !pattern.terminal && !successor_exists(patterns, i) {
            defects.push(LibraryDefect::DeadEnd(pattern.metadata.unique_name.clone()));
        }
        if !pattern.start && !predecessor_exists(patterns, i) {
            defects.push(LibraryDefect::Unreachable(pattern.metadata.unique_name.clone()));
        }
        i += 1;
    }
    let mut orphans: Vec<String> = Vec::new();
    let mut k: usize = 0;
    while k < patterns.len()
        invariant
            k <= patterns.len(),
            library == views(patterns@),
            texts(orphans@) == orphans_among(library, all_tags(library, k as int)),
        decreases patterns.len() - k,
    {
        let pattern = &patterns[k];
        note_orphans(patterns, &pattern.leads_from, &mut orphans, Ghost(all_tags(library, k as int)));
        note_orphans(
            patterns,
            &pattern.leads_to,
            &mut orphans,
            Ghost(all_tags(library, k as int) + library[k as int].leads_from),
        );
        k += 1;
    }
    let ghost links = defects@;
    let mut m: usize = 0;
    while m < orphans.len()
        invariant
            m <= orphans.len(),
            faults(defects@) == faults(links) + orphan_faults(texts(orphans@).take(m as int)),
        decreases orphans.len() - m,
    {
        let ghost before = defects@;
        defects.push(LibraryDefect::OrphanTag(orphans[m].clone()));
        proof {
            assert(faults(defects@) =~= faults(before).push(LibraryFault::OrphanTag(orphans@[m as int]@)));
        }
        m += 1;
    }
    defects
}

/// The test that a pattern is the one of a unique name.
pub open spec fn named(name: Seq<char>) -> spec_fn(int, PatternView) -> bool {
    |i: int, pattern: PatternView| pattern.unique_name == name
}

/// The unique names of the patterns among the first `k` that may follow the
/// pattern at `i`, in the order of the patterns.
pub open spec fn successors_before(library: Seq<PatternView>, i: int, k: int) -> Seq<Seq<char>>
    decreases k,
{
    if k <= 0 {
        Seq::empty()
    } else {
        let earlier = successors_before(library, i, k - 1);
        if follows(library, i, k - 1) {
            earlier.push(library[k - 1].unique_name)
        } else {
            earlier
        }
    }
}

/// The unique names of the patterns that may follow the pattern of a unique
/// name, in the order of the library. A name that the library does not hold
/// is followed by nothing.
pub open spec fn successor_names(library: Seq<PatternView>, name: Seq<char>) -> Seq<Seq<char>> {
    match first_index(library, named(name)) {
        Some(i) => successors_before(library, i, library.len() as int),
        None => Seq::empty(),
    }
}

impl PatternStore {
    /// The unique names of the patterns that may follow the pattern of a
    /// unique name on a track.
    pub fn successors(&self, name: &str) -> (names: Vec<String>)
        ensures
            texts(names@) == successor_names(self@, name@),
    {
        let ghost library = self@;
        let mut names: Vec<String> = Vec::new();
        match self.position(name) {
            None => {},
            Some(i) => {
                proof {
                    lemma_first_index_found(library, named(name@), i as int);
                }
                let patterns = self.all();
                let mut j: usize = 0;
                while j < patterns.len()
                    invariant
                        j <= patterns.len(),
                        i < patterns.len(),
                        library == views(patterns@),
                        texts(names@) == successors_before(library, i as int, j as int),
                    decreases patterns.len() - j,
                {
                    if j != i && patterns[i].leads_into(&patterns[j]) {
                        names.push(patterns[j].metadata.unique_name.clone());
                    }
                    j += 1;
                }
            },
        }
        names
    }
}

} // verus!

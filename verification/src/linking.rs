//! What the defects of a library mean, stated without the passes that find
//! them, and the proof that those passes find exactly them.

use crate::graph::{
    all_tags, faults, follows, has_predecessor, has_successor, is_dead_end, is_orphan,
    is_unreachable, library_faults, link_faults, named, orphan_faults, orphans_among, provided,
    received, successor_names, successors_before, LibraryDefect, LibraryFault,
};
use crate::pattern::{texts, PatternView};
use crate::search::{first_index, lemma_first_index_none};
use crate::store::{names_distinct, PatternStore};
use vstd::prelude::*;
use vstd::seq_lib::{lemma_seq_concat_contains_all_elements, lemma_seq_contains_after_push};

verus! {

/// What it means for a library to have a defect.
pub open spec fn is_fault(library: Seq<PatternView>, fault: LibraryFault) -> bool {
    match fault {
        LibraryFault::DeadEnd(name) => exists|i: int|
            0 <= i < library.len() && (#[trigger] library[i]).unique_name == name && is_dead_end(
                library,
                i,
            ),
        LibraryFault::Unreachable(name) => exists|i: int|
            0 <= i < library.len() && (#[trigger] library[i]).unique_name == name
                && is_unreachable(library, i),
        LibraryFault::OrphanTag(tag) => is_orphan(library, tag),
    }
}

/// What it means for one of the first `k` patterns to be a dead end or
/// unreachable.
pub open spec fn is_link_fault(library: Seq<PatternView>, k: int, fault: LibraryFault) -> bool {
    match fault {
        LibraryFault::DeadEnd(name) => exists|i: int|
            0 <= i < k && (#[trigger] library[i]).unique_name == name && is_dead_end(library, i),
        LibraryFault::Unreachable(name) => exists|i: int|
            0 <= i < k && (#[trigger] library[i]).unique_name == name && is_unreachable(
                library,
                i,
            ),
        LibraryFault::OrphanTag(tag) => false,
    }
}

/// The dead ends and unreachable patterns that are reported are those that
/// there are.
pub proof fn lemma_link_faults(library: Seq<PatternView>, k: int, fault: LibraryFault)
    requires
        0 <= k <= library.len(),
    ensures
        link_faults(library, k).contains(fault) <==> is_link_fault(library, k, fault),
    decreases k,
{
    broadcast use lemma_seq_contains_after_push;

    if k > 0 {
        lemma_link_faults(library, k - 1, fault);
    }
}

/// The tags of the first `k` patterns are the tags that one of them leads
/// from or leads to.
pub proof fn lemma_all_tags(library: Seq<PatternView>, k: int, tag: Seq<char>)
    requires
        0 <= k <= library.len(),
    ensures
        all_tags(library, k).contains(tag) <==> exists|i: int|
            0 <= i < k && ((#[trigger] library[i]).leads_from.contains(tag)
                || library[i].leads_to.contains(tag)),
    decreases k,
{
    broadcast use lemma_seq_concat_contains_all_elements;

    if k > 0 {
        lemma_all_tags(library, k - 1, tag);
    }
}

/// The orphans that are picked out of a list of tags are the orphans of
/// the list, each once.
pub proof fn lemma_orphans_among(library: Seq<PatternView>, tags: Seq<Seq<char>>, tag: Seq<char>)
    ensures
        orphans_among(library, tags).contains(tag) <==> tags.contains(tag) && is_orphan(
            library,
            tag,
        ),
        orphans_among(library, tags).no_duplicates(),
    decreases tags.len(),
{
    broadcast use lemma_seq_contains_after_push;

    if tags.len() > 0 {
        let front = tags.drop_last();
        lemma_orphans_among(library, front, tag);
        assert(tags =~= front.push(tags.last()));
    }
}

/// The defects that are reported of a library are the defects of the
/// library: nothing else is reported, and nothing is passed over.
pub proof fn lemma_library_faults(library: Seq<PatternView>, fault: LibraryFault)
    ensures
        library_faults(library).contains(fault) <==> is_fault(library, fault),
{
    broadcast use lemma_seq_concat_contains_all_elements;

    let n = library.len() as int;
    let orphans = orphans_among(library, all_tags(library, n));
    lemma_link_faults(library, n, fault);
    match fault {
        LibraryFault::OrphanTag(tag) => {
            lemma_orphans_among(library, all_tags(library, n), tag);
            lemma_all_tags(library, n, tag);
            if orphans.contains(tag) {
                let i = choose|i: int| 0 <= i < orphans.len() && orphans[i] == tag;
                assert(orphan_faults(orphans)[i] == fault);
            }
        },
        _ => {},
    }
}

/// The successors found among the first `k` patterns are the names of
/// those of them that may follow the pattern at `i`, each once.
pub proof fn lemma_successors_before(library: Seq<PatternView>, i: int, k: int, next: Seq<char>)
    requires
        0 <= k <= library.len(),
        names_distinct(library),
    ensures
        successors_before(library, i, k).contains(next) <==> exists|j: int|
            0 <= j < k && #[trigger] follows(library, i, j) && library[j].unique_name == next,
        successors_before(library, i, k).no_duplicates(),
    decreases k,
{
    broadcast use lemma_seq_contains_after_push;

    if k > 0 {
        lemma_successors_before(library, i, k - 1, next);
        lemma_successors_before(library, i, k - 1, library[k - 1].unique_name);
    }
}

/// The successors of a name are the names of the patterns that may follow
/// the pattern of that name, each once.
pub proof fn lemma_successor_names(library: Seq<PatternView>, name: Seq<char>, next: Seq<char>)
    requires
        names_distinct(library),
    ensures
        successor_names(library, name).contains(next) <==> exists|i: int, j: int| #[trigger]
            follows(library, i, j) && library[i].unique_name == name && library[j].unique_name
                == next,
        successor_names(library, name).no_duplicates(),
{
    let n = library.len() as int;
    lemma_first_index_none(library, named(name));
    match first_index(library, named(name)) {
        Some(i) => {
            lemma_successors_before(library, i, n, next);
        },
        None => {
            assert forall|i: int, j: int| #[trigger]
                follows(library, i, j) implies library[i].unique_name != name by {
                assert(!named(name)(i, library[i]));
            }
        },
    }
}

/// Where one pattern leads into another, the first is not reported as a
/// dead end, the second is not reported as unreachable, and the second is
/// among the successors of the first.
pub proof fn lemma_linked_patterns(library: Seq<PatternView>, i: int, j: int)
    requires
        names_distinct(library),
        follows(library, i, j),
    ensures
        !library_faults(library).contains(LibraryFault::DeadEnd(library[i].unique_name)),
        !library_faults(library).contains(LibraryFault::Unreachable(library[j].unique_name)),
        successor_names(library, library[i].unique_name).contains(library[j].unique_name),
{
    lemma_library_faults(library, LibraryFault::DeadEnd(library[i].unique_name));
    lemma_library_faults(library, LibraryFault::Unreachable(library[j].unique_name));
    lemma_successor_names(library, library[i].unique_name, library[j].unique_name);
}

/// A pattern that leads into no other pattern and is not marked as one
/// that a track may end with is reported as a dead end.
pub proof fn lemma_dead_end_is_reported(library: Seq<PatternView>, i: int)
    requires
        0 <= i < library.len(),
        !library[i].terminal,
        forall|j: int| !#[trigger] follows(library, i, j),
    ensures
        library_faults(library).contains(LibraryFault::DeadEnd(library[i].unique_name)),
{
    lemma_library_faults(library, LibraryFault::DeadEnd(library[i].unique_name));
}

/// A pattern that no other pattern leads into and that is not marked as
/// one that a track may begin with is reported as unreachable.
pub proof fn lemma_unreachable_is_reported(library: Seq<PatternView>, i: int)
    requires
        0 <= i < library.len(),
        !library[i].start,
        forall|j: int| !#[trigger] follows(library, j, i),
    ensures
        library_faults(library).contains(LibraryFault::Unreachable(library[i].unique_name)),
{
    lemma_library_faults(library, LibraryFault::Unreachable(library[i].unique_name));
}

/// Checking a store twice reports the same defects in the same order, and
/// asking twice for the successors of a name gives the same names in the
/// same order: both depend on what the store holds and on nothing else.
pub proof fn lemma_checks_repeat(
    store: PatternStore,
    name: Seq<char>,
    first: Seq<LibraryDefect>,
    second: Seq<LibraryDefect>,
    first_names: Seq<String>,
    second_names: Seq<String>,
)
    requires
        faults(first) == library_faults(store@),
        faults(second) == library_faults(store@),
        texts(first_names) == successor_names(store@, name),
        texts(second_names) == successor_names(store@, name),
    ensures
        faults(first) == faults(second),
        texts(first_names) == texts(second_names),
{
}

/// In a library of which no defect is reported, every pattern that is not
/// marked as an end leads into another, every pattern that is not marked as
/// a start is led into by another, and every tag that a pattern leads to is
/// one that a pattern leads from, and the other way round.
pub proof fn lemma_sound_library(library: Seq<PatternView>)
    requires
        library_faults(library).len() == 0,
    ensures
        forall|i: int|
            0 <= i < library.len() ==> (#[trigger] library[i]).terminal || has_successor(
                library,
                i,
            ),
        forall|i: int|
            0 <= i < library.len() ==> (#[trigger] library[i]).start || has_predecessor(
                library,
                i,
            ),
        forall|tag: Seq<char>| #[trigger] provided(library, tag) == received(library, tag),
{
    assert forall|i: int| 0 <= i < library.len() implies (#[trigger] library[i]).terminal
        || has_successor(library, i) by {
        lemma_library_faults(library, LibraryFault::DeadEnd(library[i].unique_name));
    }
    assert forall|i: int| 0 <= i < library.len() implies (#[trigger] library[i]).start
        || has_predecessor(library, i) by {
        lemma_library_faults(library, LibraryFault::Unreachable(library[i].unique_name));
    }
    assert forall|tag: Seq<char>| #[trigger] provided(library, tag) == received(library, tag) by {
        lemma_library_faults(library, LibraryFault::OrphanTag(tag));
    }
}

} // verus!

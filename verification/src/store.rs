//! The library of loaded patterns, filed by their unique names.

use crate::pattern::{Pattern, PatternView};
use crate::text::same_text;
use vstd::prelude::*;
use vstd::string::*;

verus! {

/// The name of a pattern that was offered to a store which already holds a
/// pattern of that name.
#[derive(Clone, Debug, PartialEq, Eq)]
pub struct DuplicateName {
    pub name: String,
}

/// A sequence of patterns as plain mathematical values.
pub open spec fn views(patterns: Seq<Pattern>) -> Seq<PatternView> {
    Seq::new(patterns.len(), |i: int| patterns[i]@)
}

/// Whether no two patterns of a library share a unique name.
pub open spec fn names_distinct(library: Seq<PatternView>) -> bool {
    forall|i: int, j: int|
        0 <= i < j < library.len() ==> (#[trigger] library[i]).unique_name != (
        #[trigger] library[j]).unique_name
}

/// Whether a library holds a pattern of this unique name.
pub open spec fn has_name(library: Seq<PatternView>, name: Seq<char>) -> bool {
    exists|i: int| 0 <= i < library.len() && (#[trigger] library[i]).unique_name == name
}

/// All loaded patterns. It owns them, and no two of them share a unique
/// name. Its view is the patterns in the order in which they were taken in.
pub struct PatternStore {
    patterns: Vec<Pattern>,
}

impl View for PatternStore {
    type V = Seq<PatternView>;

    closed spec fn view(&self) -> Seq<PatternView> {
        views(self.patterns@)
    }
}

impl PatternStore {
    #[verifier::type_invariant]
    closed spec fn unique_names(self) -> bool {
        names_distinct(views(self.patterns@))
    }

    /// A store that holds nothing.
    pub fn new() -> (store: PatternStore)
        ensures
            store@ == Seq::<PatternView>::empty(),
    {
        PatternStore { patterns: Vec::new() }
    }

    /// How many patterns the store holds.
    pub fn len(&self) -> (n: usize)
        ensures
            n == self@.len(),
    {
        self.patterns.len()
    }

    /// Whether the store holds nothing.
    pub fn is_empty(&self) -> (empty: bool)
        ensures
            empty == (self@.len() == 0),
    {
        self.patterns.len() == 0
    }

    /// Where the pattern of a unique name stands in the store.
    pub fn position(&self, name: &str) -> (r: Option<usize>)
        ensures
            names_distinct(self@),
            match r {
                Some(i) => i < self@.len() && self@[i as int].unique_name == name@,
                None => !has_name(self@, name@),
            },
    {
        proof {
            use_type_invariant(self);
        }
        let mut i: usize = 0;
        while i < self.patterns.len()
            invariant
                i <= self.patterns.len(),
                names_distinct(self@),
                forall|j: int| 0 <= j < i ==> (#[trigger] self@[j]).unique_name != name@,
            decreases self.patterns.len() - i,
        {
            if same_text(self.patterns[i].metadata.unique_name.as_str(), name) {
                return Some(i);
            }
            i += 1;
        }
        None
    }

    /// Takes a pattern in, unless the store already holds one of its unique
    /// name: then the store stays as it is and the pattern is turned away.
    pub fn insert(&mut self, pattern: Pattern) -> (r: Result<(), DuplicateName>)
        ensures
            names_distinct(final(self)@),
            if has_name(old(self)@, pattern@.unique_name) {
                r is Err && r->Err_0.name@ == pattern@.unique_name && final(self)@ == old(self)@
            } else {
                r is Ok && final(self)@ == old(self)@.push(pattern@)
            },
    {
        match self.position(pattern.metadata.unique_name.as_str()) {
            Some(_) => Err(DuplicateName { name: pattern.metadata.unique_name }),
            None => {
                // The list is taken out, grown and put back whole: at no
                // point does the store hold a list that might break its rule.
                let mut patterns: Vec<Pattern> = Vec::new();
                core::mem::swap(&mut self.patterns, &mut patterns);
                let ghost before = patterns@;
                patterns.push(pattern);
                proof {
                    assert(views(patterns@) =~= views(before).push(pattern@));
                }
                core::mem::swap(&mut self.patterns, &mut patterns);
                Ok(())
            },
        }
    }

    /// The pattern of a unique name.
    pub fn get(&self, name: &str) -> (r: Option<&Pattern>)
        ensures
            names_distinct(self@),
            match r {
                Some(pattern) => pattern@.unique_name == name@ && self@.contains(pattern@),
                None => !has_name(self@, name@),
            },
    {
        match self.position(name) {
            Some(i) => Some(&self.patterns[i]),
            None => None,
        }
    }

    /// Every pattern of the store, in the order in which they were taken in.
    pub fn all(&self) -> (patterns: &[Pattern])
        ensures
            views(patterns@) == self@,
            names_distinct(self@),
    {
        proof {
            use_type_invariant(self);
        }
        self.patterns.as_slice()
    }
}

} // verus!

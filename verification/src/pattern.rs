//! A pattern: one authored segment of track.

use crate::cell::CellContent;
use crate::lane::Lane;
use vstd::prelude::*;
use vstd::string::*;

verus! {

/// One row of a pattern: what each of the three lanes holds.
#[derive(Clone, Copy, Debug, PartialEq, Eq, Structural)]
pub struct PatternRow {
    pub left: CellContent,
    pub middle: CellContent,
    pub right: CellContent,
}

impl PatternRow {
    /// What the row holds in a lane.
    pub open spec fn at(self, lane: Lane) -> CellContent {
        match lane {
            Lane::Left => self.left,
            Lane::Middle => self.middle,
            Lane::Right => self.right,
        }
    }

    /// What the row holds in a lane.
    pub fn cell(&self, lane: Lane) -> (c: CellContent)
        ensures
            c == self.at(lane),
    {
        match lane {
            Lane::Left => self.left,
            Lane::Middle => self.middle,
            Lane::Right => self.right,
        }
    }
}

/// What one lane holds, row by row in the direction of travel.
pub open spec fn column(rows: Seq<PatternRow>, lane: Lane) -> Seq<CellContent> {
    Seq::new(rows.len(), |i: int| rows[i].at(lane))
}

/// Who a pattern is: the name that identifies it in a library, the name
/// shown to people, and the version of its authoring.
#[derive(Clone, Debug, PartialEq, Eq)]
pub struct PatternMetadata {
    pub unique_name: String,
    pub name: String,
    pub version: String,
}

/// One authored segment of track. `leads_from` and `leads_to` hold tags, not
/// pattern names: a pattern may be followed by any other that it shares a
/// tag with, from its `leads_to` into the other's `leads_from`. `start`
/// marks a pattern that a track may begin with, `terminal` one that it may
/// end with.
#[derive(Clone, Debug, PartialEq, Eq)]
pub struct Pattern {
    pub metadata: PatternMetadata,
    pub leads_from: Vec<String>,
    pub leads_to: Vec<String>,
    pub rows: Vec<PatternRow>,
    pub start: bool,
    pub terminal: bool,
}

/// A pattern as plain mathematical values.
#[verifier::ext_equal]
pub struct PatternView {
    pub unique_name: Seq<char>,
    pub name: Seq<char>,
    pub version: Seq<char>,
    pub leads_from: Seq<Seq<char>>,
    pub leads_to: Seq<Seq<char>>,
    pub rows: Seq<PatternRow>,
    pub start: bool,
    pub terminal: bool,
}

/// The characters of each string of a sequence.
pub open spec fn texts(strings: Seq<String>) -> Seq<Seq<char>> {
    Seq::new(strings.len(), |i: int| strings[i]@)
}

impl View for Pattern {
    type V = PatternView;

    open spec fn view(&self) -> PatternView {
        PatternView {
            unique_name: self.metadata.unique_name@,
            name: self.metadata.name@,
            version: self.metadata.version@,
            leads_from: texts(self.leads_from@),
            leads_to: texts(self.leads_to@),
            rows: self.rows@,
            start: self.start,
            terminal: self.terminal,
        }
    }
}

/// Whether a list of tags is a set written down once: no tag is blank and
/// none occurs twice.
pub open spec fn tags_well_formed(tags: Seq<Seq<char>>) -> bool {
    &&& tags.no_duplicates()
    &&& forall|i: int| 0 <= i < tags.len() ==> (#[trigger] tags[i]).len() > 0
}

impl PatternView {
    /// What reading a pattern from text guarantees of it: it has a name and
    /// a version, and its tags are sets of non-blank tags.
    pub open spec fn well_formed(self) -> bool {
        &&& self.unique_name.len() > 0
        &&& self.version.len() > 0
        &&& tags_well_formed(self.leads_from)
        &&& tags_well_formed(self.leads_to)
    }

    /// Whether `next` may follow this pattern on a track: some tag that
    /// this pattern leads to is one that `next` leads from.
    pub open spec fn leads_into(self, next: PatternView) -> bool {
        exists|tag: Seq<char>| #[trigger] self.leads_to.contains(tag) && next.leads_from.contains(tag)
    }
}

/// Whether a list of tags holds a tag.
pub fn has_tag(tags: &Vec<String>, tag: &String) -> (found: bool)
    ensures
        found == texts(tags@).contains(tag@),
{
    let mut i: usize = 0;
    while i < tags.len()
        invariant
            i <= tags.len(),
            forall|j: int| 0 <= j < i ==> texts(tags@)[j] != tag@,
        decreases tags.len() - i,
    {
        if tags[i] == *tag {
            assert(texts(tags@)[i as int] == tag@);
            return true;
        }
        i += 1;
    }
    false
}

impl Pattern {
    /// Whether `next` may follow this pattern on a track.
    pub fn leads_into(&self, next: &Pattern) -> (linked: bool)
        ensures
            linked == self@.leads_into(next@),
    {
        let mut i: usize = 0;
        while i < self.leads_to.len()
            invariant
                i <= self.leads_to.len(),
                forall|j: int|
                    0 <= j < i ==> !next@.leads_from.contains(#[trigger] self@.leads_to[j]),
            decreases self.leads_to.len() - i,
        {
            if has_tag(&next.leads_from, &self.leads_to[i]) {
                assert(self@.leads_to.contains(self@.leads_to[i as int]));
                return true;
            }
            i += 1;
        }
        false
    }
}

} // verus!

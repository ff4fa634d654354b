//! What loading and checking a library of patterns report to its authors.

use crate::graph::{LibraryDefect, LibraryFault};
use crate::parser::{ParseError, ParseFault};
use crate::store::DuplicateName;
use crate::validate::PatternDefect;
use vstd::prelude::*;
use vstd::string::*;

verus! {

/// Anything that can be wrong with what was loaded.
#[derive(Clone, Debug, PartialEq, Eq)]
pub enum Defect {
    /// A text is no pattern.
    Parse(ParseError),
    /// A pattern was turned away because its unique name was taken.
    Duplicate(DuplicateName),
    /// A pattern breaks a rule that its rows must keep.
    Pattern(PatternDefect),
    /// The library does not hang together.
    Library(LibraryDefect),
}

/// A `Defect` as plain mathematical values.
pub enum DefectView {
    Parse(ParseFault),
    Duplicate(Seq<char>),
    Pattern(PatternDefect),
    Library(LibraryFault),
}

impl View for Defect {
    type V = DefectView;

    open spec fn view(&self) -> DefectView {
        match *self {
            Defect::Parse(error) => DefectView::Parse(error@),
            Defect::Duplicate(duplicate) => DefectView::Duplicate(duplicate.name@),
            Defect::Pattern(defect) => DefectView::Pattern(defect),
            Defect::Library(defect) => DefectView::Library(defect@),
        }
    }
}

/// One line of the report: a defect, and the unique name of the pattern
/// that it is a defect of, where it is a defect of one known pattern.
#[derive(Clone, Debug, PartialEq, Eq)]
pub struct Diagnostic {
    pub pattern: Option<String>,
    pub defect: Defect,
}

/// A `Diagnostic` as plain mathematical values.
pub struct DiagnosticView {
    pub pattern: Option<Seq<char>>,
    pub defect: DefectView,
}

impl View for Diagnostic {
    type V = DiagnosticView;

    open spec fn view(&self) -> DiagnosticView {
        DiagnosticView {
            pattern: match self.pattern {
                Some(name) => Some(name@),
                None => None,
            },
            defect: self.defect@,
        }
    }
}

/// A report as plain mathematical values.
pub open spec fn reports(diagnostics: Seq<Diagnostic>) -> Seq<DiagnosticView> {
    Seq::new(diagnostics.len(), |i: int| diagnostics[i]@)
}

/// The pattern that a defect of a library is a defect of. An orphan tag is
/// a defect of no one pattern.
pub open spec fn subject(fault: LibraryFault) -> Option<Seq<char>> {
    match fault {
        LibraryFault::DeadEnd(name) => Some(name),
        LibraryFault::Unreachable(name) => Some(name),
        LibraryFault::OrphanTag(_) => None,
    }
}

impl Diagnostic {
    /// The line that reports a text that is no pattern.
    pub fn of_parse(error: ParseError) -> (line: Diagnostic)
        ensures
            line@ == (DiagnosticView { pattern: None, defect: DefectView::Parse(error@) }),
    {
        Diagnostic { pattern: None, defect: Defect::Parse(error) }
    }

    /// The line that reports a pattern turned away for its name.
    pub fn of_duplicate(duplicate: DuplicateName) -> (line: Diagnostic)
        ensures
            line@ == (DiagnosticView {
                pattern: Some(duplicate.name@),
                defect: DefectView::Duplicate(duplicate.name@),
            }),
    {
        Diagnostic { pattern: Some(duplicate.name.clone()), defect: Defect::Duplicate(duplicate) }
    }

    /// The line that reports a defect of the pattern of a unique name.
    pub fn of_pattern(name: &String, defect: PatternDefect) -> (line: Diagnostic)
        ensures
            line@ == (DiagnosticView {
                pattern: Some(name@),
                defect: DefectView::Pattern(defect),
            }),
    {
        Diagnostic { pattern: Some(name.clone()), defect: Defect::Pattern(defect) }
    }

    /// The line that reports a defect of the library.
    pub fn of_library(defect: LibraryDefect) -> (line: Diagnostic)
        ensures
            line@ == (DiagnosticView {
                pattern: subject(defect@),
                defect: DefectView::Library(defect@),
            }),
    {
        let pattern = match &defect {
            LibraryDefect::DeadEnd(name) => Some(name.clone()),
            LibraryDefect::Unreachable(name) => Some(name.clone()),
            LibraryDefect::OrphanTag(_) => None,
        };
        Diagnostic { pattern, defect: Defect::Library(defect) }
    }
}

} // verus!

//! Track patterns for an endless runner: authored segments of a three-lane
//! track, read from text, checked one by one and as a connected library.
//!
//! A pattern is read with [`parse`], taken into a [`PatternStore`], checked
//! with [`validate_pattern`], and the store as a whole with
//! [`validate_library`]. A [`Loader`] does all of it for any number of texts
//! and ends with a [`TrackLibrary`] or with a report of everything wrong.

pub mod cell;
pub mod diagnostic;
pub mod document;
pub mod graph;
pub mod lane;
pub mod library;
pub mod linking;
pub mod load;
pub mod pairing;
pub mod parser;
pub mod pattern;
pub mod score;
pub mod search;
pub mod store;
pub mod text;
pub mod validate;

pub use cell::{parse_cell, to_alias, CellContent, UnknownToken};
pub use diagnostic::{Defect, Diagnostic};
pub use graph::{validate_library, LibraryDefect};
pub use lane::Lane;
pub use library::TrackLibrary;
pub use load::{load_library, Loader};
pub use parser::{decode, parse, ParseError};
pub use pattern::{Pattern, PatternMetadata, PatternRow};
pub use score::Score;
pub use store::{DuplicateName, PatternStore};
pub use validate::{validate_pattern, validate_pattern_with, ArcLimits, PatternDefect};

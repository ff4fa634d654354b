//! A structured text document as a tree of plain values, and the reading of
//! TOML text into one.

use crate::search::{first_index, lemma_first_index_found};
use crate::text::same_text;
use vstd::prelude::*;
use vstd::string::*;

verus! {

/// One value of a document. Numbers and dates, which no pattern holds, are
/// all `Other`.
#[derive(Debug, PartialEq, Eq)]
pub enum Node {
    Text(String),
    Flag(bool),
    Other,
    List(Vec<Node>),
    Table(Vec<Entry>),
}

/// One named value of a table.
#[derive(Debug, PartialEq, Eq)]
pub struct Entry {
    pub key: String,
    pub value: Node,
}

/// The test that an entry is filed under `key`.
pub open spec fn keyed(key: Seq<char>) -> spec_fn(int, Entry) -> bool {
    |i: int, e: Entry| e.key@ == key
}

/// The value of the first entry filed under `key`.
pub open spec fn lookup(entries: Seq<Entry>, key: Seq<char>) -> Option<Node> {
    match first_index(entries, keyed(key)) {
        Some(i) => Some(entries[i].value),
        None => None,
    }
}

impl Node {
    /// The value that a table files under `key`. Anything but a table has no
    /// such value.
    pub open spec fn child(self, key: Seq<char>) -> Option<Node> {
        match self {
            Node::Table(entries) => lookup(entries@, key),
            _ => None,
        }
    }

    /// The value that a table files under `key`.
    pub fn get(&self, key: &str) -> (r: Option<&Node>)
        ensures
            match r {
                Some(node) => self.child(key@) == Some(*node),
                None => self.child(key@) is None,
            },
    {
        match self {
            Node::Table(entries) => {
                let mut i: usize = 0;
                while i < entries.len()
                    invariant
                        i <= entries.len(),
                        self.child(key@) == lookup(entries@, key@),
                        forall|j: int| 0 <= j < i ==> !#[trigger] keyed(key@)(j, entries@[j]),
                    decreases entries.len() - i,
                {
                    if same_text(entries[i].key.as_str(), key) {
                        proof {
                            lemma_first_index_found(entries@, keyed(key@), i as int);
                        }
                        return Some(&entries[i].value);
                    }
                    i += 1;
                }
                None
            },
            _ => None,
        }
    }
}

/// What `str::parse::<toml::Table>` makes of a text: the document as a tree,
/// or the parser's message where the text is not well-formed TOML.
pub uninterp spec fn toml_document(text: Seq<char>) -> Result<Node, String>;

#[verifier::external_type_specification]
#[verifier::external_body]
pub struct ExTomlValue(toml::Value);

/// `<toml::Table as FromStr>::from_str`, reached as `str::parse`. The result
/// depends on the text alone, so it is named: the table as a `Node::Table`
/// with its entries in the order in which the table yields them, or the
/// error's `Display` text. Nothing more is claimed of either.
#[verifier::external_body]
pub(crate) fn read_document(text: &str) -> (r: Result<Node, String>)
    ensures
        r == toml_document(text@),
{
    match text.parse::<toml::Table>() {
        Ok(table) => Ok(tree_of(toml::Value::Table(table))),
        Err(e) => Err(e.to_string()),
    }
}

/// Rebuilds a `toml::Value` as a `Node`, variant by variant: strings and
/// booleans keep their value, arrays and tables keep their items in order,
/// integers, floats and datetimes become `Node::Other`.
#[verifier::external_body]
fn tree_of(value: toml::Value) -> Node {
    match value {
        toml::Value::String(s) => Node::Text(s),
        toml::Value::Integer(_) => Node::Other,
        toml::Value::Float(_) => Node::Other,
        toml::Value::Boolean(b) => Node::Flag(b),
        toml::Value::Datetime(_) => Node::Other,
        toml::Value::Array(a) => Node::List(a.into_iter().map(tree_of).collect()),
        toml::Value::Table(t) => Node::Table(
            t.into_iter().map(|(k, v)| Entry { key: k, value: tree_of(v) }).collect(),
        ),
    }
}

} // verus!

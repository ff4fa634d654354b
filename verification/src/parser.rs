//! Reading a pattern from a document.
//!
//! A pattern's document has a `metadata` table (`unique_name`, `name`,
//! `version`) and a `pattern_data` table, which may also be called `data`
//! (`leads_from`, `leads_to`, `pattern`, and the optional flags `start` and
//! `terminal`). `pattern` lists the rows in the direction of travel. A row is
//! a list of three cell tokens, left to right, or a table that files them
//! under `left`, `middle` and `right`.

use crate::cell::{cell_of_token, parse_cell, CellContent};
use crate::document::{read_document, toml_document, Node};
use crate::lane::Lane;
use crate::pattern::{has_tag, tags_well_formed, texts, Pattern, PatternMetadata, PatternRow, PatternView};
use crate::search::{first_index, lemma_first_index_found, lemma_least_exists};
use vstd::prelude::*;
use vstd::seq_lib::lemma_seq_contains_after_push;
use vstd::string::*;

verus! {

/// A named value of a pattern's document.
#[derive(Clone, Copy, Debug, PartialEq, Eq, Structural)]
pub enum Field {
    UniqueName,
    Name,
    Version,
    LeadsFrom,
    LeadsTo,
    Pattern,
    Start,
    Terminal,
}

impl Field {
    /// The name under which the document files the field.
    pub open spec fn key(self) -> Seq<char> {
        match self {
            Field::UniqueName => "unique_name"@,
            Field::Name => "name"@,
            Field::Version => "version"@,
            Field::LeadsFrom => "leads_from"@,
            Field::LeadsTo => "leads_to"@,
            Field::Pattern => "pattern"@,
            Field::Start => "start"@,
            Field::Terminal => "terminal"@,
        }
    }

    /// Whether the field belongs to the `metadata` table; the others belong
    /// to the data table.
    pub open spec fn of_metadata(self) -> bool {
        self == Field::UniqueName || self == Field::Name || self == Field::Version
    }

    /// The name under which the document files the field.
    pub fn name(self) -> (s: &'static str)
        ensures
            s@ == self.key(),
    {
        match self {
            Field::UniqueName => "unique_name",
            Field::Name => "name",
            Field::Version => "version",
            Field::LeadsFrom => "leads_from",
            Field::LeadsTo => "leads_to",
            Field::Pattern => "pattern",
            Field::Start => "start",
            Field::Terminal => "terminal",
        }
    }

    /// Whether the field belongs to the `metadata` table.
    pub fn in_metadata(self) -> (m: bool)
        ensures
            m == self.of_metadata(),
    {
        match self {
            Field::UniqueName => true,
            Field::Name => true,
            Field::Version => true,
            _ => false,
        }
    }
}

/// Why a text is not a pattern.
#[derive(Clone, Debug, PartialEq, Eq)]
pub enum ParseError {
    /// The text is not a well-formed document; the parser's message.
    Syntax(String),
    /// The document has no value for a field that every pattern needs.
    MissingField(Field),
    /// A field that must not be blank is blank, or a list of tags holds a
    /// blank tag.
    EmptyField(Field),
    /// The field's value is of the wrong kind: text where a list belongs,
    /// a number for a name, a tag that is no text.
    WrongType(Field),
    /// The row at this index holds this many cells, not three.
    MalformedRow(usize, usize),
    /// The row at this index has no text for the cell of this lane.
    InvalidCell(usize, Lane),
    /// The row at this index holds, in this lane, a token that stands for
    /// no cell.
    UnknownToken(usize, Lane, String),
}

/// A `ParseError` as plain mathematical values.
pub enum ParseFault {
    Syntax(Seq<char>),
    MissingField(Field),
    EmptyField(Field),
    WrongType(Field),
    MalformedRow(int, int),
    InvalidCell(int, Lane),
    UnknownToken(int, Lane, Seq<char>),
}

impl View for ParseError {
    type V = ParseFault;

    open spec fn view(&self) -> ParseFault {
        match *self {
            ParseError::Syntax(message) => ParseFault::Syntax(message@),
            ParseError::MissingField(field) => ParseFault::MissingField(field),
            ParseError::EmptyField(field) => ParseFault::EmptyField(field),
            ParseError::WrongType(field) => ParseFault::WrongType(field),
            ParseError::MalformedRow(row, found) => ParseFault::MalformedRow(
                row as int,
                found as int,
            ),
            ParseError::InvalidCell(row, lane) => ParseFault::InvalidCell(row as int, lane),
            ParseError::UnknownToken(row, lane, token) => ParseFault::UnknownToken(
                row as int,
                lane,
                token@,
            ),
        }
    }
}

/// The table that holds a pattern's tags and rows: the one called
/// `pattern_data`, else the one called `data`.
pub open spec fn data_section(doc: Node) -> Option<Node> {
    match doc.child("pattern_data"@) {
        Some(section) => Some(section),
        None => doc.child("data"@),
    }
}

/// The value that a document holds for a field, if it holds one.
pub open spec fn field_value(doc: Node, field: Field) -> Option<Node> {
    let section = if field.of_metadata() {
        doc.child("metadata"@)
    } else {
        data_section(doc)
    };
    match section {
        Some(table) => table.child(field.key()),
        None => None,
    }
}

/// A field that must be text.
pub open spec fn text_field(doc: Node, field: Field) -> Result<Seq<char>, ParseFault> {
    match field_value(doc, field) {
        None => Err(ParseFault::MissingField(field)),
        Some(Node::Text(text)) => Ok(text@),
        Some(_) => Err(ParseFault::WrongType(field)),
    }
}

/// A field that must be text and not blank.
pub open spec fn filled_field(doc: Node, field: Field) -> Result<Seq<char>, ParseFault> {
    match text_field(doc, field) {
        Ok(text) => if text.len() == 0 {
            Err(ParseFault::EmptyField(field))
        } else {
            Ok(text)
        },
        Err(fault) => Err(fault),
    }
}

/// A flag that may be left out, and is then not set.
pub open spec fn flag_field(doc: Node, field: Field) -> Result<bool, ParseFault> {
    match field_value(doc, field) {
        None => Ok(false),
        Some(Node::Flag(flag)) => Ok(flag),
        Some(_) => Err(ParseFault::WrongType(field)),
    }
}

/// The characters of a node that is text; nothing for any other node.
pub open spec fn text_of(node: Node) -> Seq<char> {
    match node {
        Node::Text(text) => text@,
        _ => Seq::empty(),
    }
}

/// The characters of every node of a list.
pub open spec fn texts_of(items: Seq<Node>) -> Seq<Seq<char>> {
    Seq::new(items.len(), |i: int| text_of(items[i]))
}

/// A list of tags with every repetition of a tag struck out.
pub open spec fn distinct(tags: Seq<Seq<char>>) -> Seq<Seq<char>>
    decreases tags.len(),
{
    if tags.len() == 0 {
        Seq::empty()
    } else {
        let before = distinct(tags.drop_last());
        if before.contains(tags.last()) {
            before
        } else {
            before.push(tags.last())
        }
    }
}

/// What a list of nodes gives as the tags of a field: every node must be
/// text, none blank; a tag written twice counts once.
pub open spec fn tags_of(items: Seq<Node>, field: Field) -> Result<Seq<Seq<char>>, ParseFault> {
    if exists|i: int| 0 <= i < items.len() && !(#[trigger] items[i] is Text) {
        Err(ParseFault::WrongType(field))
    } else if exists|i: int| 0 <= i < items.len() && text_of(#[trigger] items[i]).len() == 0 {
        Err(ParseFault::EmptyField(field))
    } else {
        Ok(distinct(texts_of(items)))
    }
}

/// A field that must be a list of tags.
pub open spec fn tag_field(doc: Node, field: Field) -> Result<Seq<Seq<char>>, ParseFault> {
    match field_value(doc, field) {
        None => Err(ParseFault::MissingField(field)),
        Some(Node::List(items)) => tags_of(items@, field),
        Some(_) => Err(ParseFault::WrongType(field)),
    }
}

/// How many cells a row supplies: the items of a list, the entries of a
/// table, none for anything else.
pub open spec fn cell_count(row: Node) -> nat {
    match row {
        Node::List(items) => items@.len(),
        Node::Table(entries) => entries@.len(),
        _ => 0,
    }
}

/// What a row supplies for a lane: a list by position, a table by the
/// lane's name.
pub open spec fn row_cell(row: Node, lane: Lane) -> Option<Node> {
    match row {
        Node::List(items) => if lane.position() < items@.len() {
            Some(items@[lane.position()])
        } else {
            None
        },
        Node::Table(_) => row.child(lane.key()),
        _ => None,
    }
}

/// The cell of one lane of the row at index `i`.
pub open spec fn cell_at(row: Node, i: int, lane: Lane) -> Result<CellContent, ParseFault> {
    match row_cell(row, lane) {
        Some(Node::Text(token)) => match cell_of_token(token@) {
            Some(cell) => Ok(cell),
            None => Err(ParseFault::UnknownToken(i, lane, token@)),
        },
        _ => Err(ParseFault::InvalidCell(i, lane)),
    }
}

/// The row at index `i`, read lane by lane from the left.
pub open spec fn row_at(row: Node, i: int) -> Result<PatternRow, ParseFault> {
    match cell_at(row, i, Lane::Left) {
        Err(fault) => Err(fault),
        Ok(left) => match cell_at(row, i, Lane::Middle) {
            Err(fault) => Err(fault),
            Ok(middle) => match cell_at(row, i, Lane::Right) {
                Err(fault) => Err(fault),
                Ok(right) => Ok(PatternRow { left, middle, right }),
            },
        },
    }
}

/// The test that a row does not supply exactly three cells.
pub open spec fn malformed() -> spec_fn(int, Node) -> bool {
    |i: int, row: Node| cell_count(row) != 3
}

/// The test that a row holds a cell that cannot be read.
pub open spec fn unreadable() -> spec_fn(int, Node) -> bool {
    |i: int, row: Node| row_at(row, i) is Err
}

/// The grid that a list of rows gives. The width of every row is checked
/// before any cell is read: the first row that is not three cells wide is
/// reported, whatever else is wrong. After that the first cell that cannot
/// be read is reported, rows from the top and lanes from the left.
pub open spec fn grid_of(rows: Seq<Node>) -> Result<Seq<PatternRow>, ParseFault> {
    match first_index(rows, malformed()) {
        Some(i) => Err(ParseFault::MalformedRow(i, cell_count(rows[i]) as int)),
        None => match first_index(rows, unreadable()) {
            Some(i) => Err(row_at(rows[i], i)->Err_0),
            None => Ok(Seq::new(rows.len(), |i: int| row_at(rows[i], i)->Ok_0)),
        },
    }
}

/// The field that holds the grid.
pub open spec fn grid_field(doc: Node) -> Result<Seq<PatternRow>, ParseFault> {
    match field_value(doc, Field::Pattern) {
        None => Err(ParseFault::MissingField(Field::Pattern)),
        Some(Node::List(rows)) => grid_of(rows@),
        Some(_) => Err(ParseFault::WrongType(Field::Pattern)),
    }
}

/// The pattern that a document describes, or the first thing wrong with
/// the document: the grid is read first, then the metadata, then the tags,
/// then the flags.
pub open spec fn decoded(doc: Node) -> Result<PatternView, ParseFault> {
    match grid_field(doc) {
        Err(fault) => Err(fault),
        Ok(rows) => match filled_field(doc, Field::UniqueName) {
            Err(fault) => Err(fault),
            Ok(unique_name) => match text_field(doc, Field::Name) {
                Err(fault) => Err(fault),
                Ok(name) => match filled_field(doc, Field::Version) {
                    Err(fault) => Err(fault),
                    Ok(version) => match tag_field(doc, Field::LeadsFrom) {
                        Err(fault) => Err(fault),
                        Ok(leads_from) => match tag_field(doc, Field::LeadsTo) {
                            Err(fault) => Err(fault),
                            Ok(leads_to) => match flag_field(doc, Field::Start) {
                                Err(fault) => Err(fault),
                                Ok(start) => match flag_field(doc, Field::Terminal) {
                                    Err(fault) => Err(fault),
                                    Ok(terminal) => Ok(
                                        PatternView {
                                            unique_name,
                                            name,
                                            version,
                                            leads_from,
                                            leads_to,
                                            rows,
                                            start,
                                            terminal,
                                        },
                                    ),
                                },
                            },
                        },
                    },
                },
            },
        },
    }
}

/// The pattern that a text describes: the text is read as TOML, and the
/// document that comes out is decoded.
pub open spec fn parsed(text: Seq<char>) -> Result<PatternView, ParseFault> {
    match toml_document(text) {
        Ok(doc) => decoded(doc),
        Err(message) => Err(ParseFault::Syntax(message@)),
    }
}

/// The value that a document holds for a field, if it holds one.
fn find_field<'a>(doc: &'a Node, field: Field) -> (r: Option<&'a Node>)
    ensures
        match r {
            Some(node) => field_value(*doc, field) == Some(*node),
            None => field_value(*doc, field) is None,
        },
{
    let section = if field.in_metadata() {
        doc.get("metadata")
    } else {
        match doc.get("pattern_data") {
            Some(section) => Some(section),
            None => doc.get("data"),
        }
    };
    match section {
        Some(table) => table.get(field.name()),
        None => None,
    }
}

/// Reads a field that must be text.
fn read_text(doc: &Node, field: Field) -> (r: Result<String, ParseError>)
    ensures
        match text_field(*doc, field) {
            Ok(text) => r is Ok && r->Ok_0@ == text,
            Err(fault) => r is Err && r->Err_0@ == fault,
        },
{
    match find_field(doc, field) {
        None => Err(ParseError::MissingField(field)),
        Some(Node::Text(text)) => Ok(text.clone()),
        Some(_) => Err(ParseError::WrongType(field)),
    }
}

/// Reads a field that must be text and not blank.
fn read_filled(doc: &Node, field: Field) -> (r: Result<String, ParseError>)
    ensures
        match filled_field(*doc, field) {
            Ok(text) => r is Ok && r->Ok_0@ == text,
            Err(fault) => r is Err && r->Err_0@ == fault,
        },
{
    match read_text(doc, field) {
        Ok(text) => if text.as_str().is_empty() {
            Err(ParseError::EmptyField(field))
        } else {
            Ok(text)
        },
        Err(e) => Err(e),
    }
}

/// Reads a flag that may be left out.
fn read_flag(doc: &Node, field: Field) -> (r: Result<bool, ParseError>)
    ensures
        match flag_field(*doc, field) {
            Ok(flag) => r == Ok::<bool, ParseError>(flag),
            Err(fault) => r is Err && r->Err_0@ == fault,
        },
{
    match find_field(doc, field) {
        None => Ok(false),
        Some(Node::Flag(flag)) => Ok(*flag),
        Some(_) => Err(ParseError::WrongType(field)),
    }
}

/// Striking out repetitions from a list grown by one tag strikes them out
/// from the list, and then keeps the new tag if it is new.
proof fn lemma_distinct_step(tags: Seq<Seq<char>>, n: int)
    requires
        0 <= n < tags.len(),
    ensures
        distinct(tags.take(n + 1)) == if distinct(tags.take(n)).contains(tags[n]) {
            distinct(tags.take(n))
        } else {
            distinct(tags.take(n)).push(tags[n])
        },
{
    assert(tags.take(n + 1).drop_last() =~= tags.take(n));
}

/// Reads a list of nodes as the tags of a field.
fn collect_tags(items: &Vec<Node>, field: Field) -> (r: Result<Vec<String>, ParseError>)
    ensures
        match tags_of(items@, field) {
            Ok(tags) => r is Ok && texts(r->Ok_0@) == tags,
            Err(fault) => r is Err && r->Err_0@ == fault,
        },
{
    let mut tags: Vec<String> = Vec::new();
    let mut blank = false;
    let mut i: usize = 0;
    while i < items.len()
        invariant
            i <= items.len(),
            forall|j: int| 0 <= j < i ==> #[trigger] items@[j] is Text,
            blank <==> exists|j: int| 0 <= j < i && text_of(#[trigger] items@[j]).len() == 0,
            texts(tags@) == distinct(texts_of(items@).take(i as int)),
        decreases items.len() - i,
    {
        match &items[i] {
            Node::Text(tag) => {
                proof {
                    lemma_distinct_step(texts_of(items@), i as int);
                }
                if tag.as_str().is_empty() {
                    blank = true;
                }
                if !has_tag(&tags, tag) {
                    tags.push(tag.clone());
                }
            },
            _ => {
                return Err(ParseError::WrongType(field));
            },
        }
        i += 1;
    }
    assert(texts_of(items@).take(i as int) =~= texts_of(items@));
    if blank {
        Err(ParseError::EmptyField(field))
    } else {
        Ok(tags)
    }
}

/// Reads a field that must be a list of tags.
fn read_tags(doc: &Node, field: Field) -> (r: Result<Vec<String>, ParseError>)
    ensures
        match tag_field(*doc, field) {
            Ok(tags) => r is Ok && texts(r->Ok_0@) == tags,
            Err(fault) => r is Err && r->Err_0@ == fault,
        },
{
    match find_field(doc, field) {
        None => Err(ParseError::MissingField(field)),
        Some(Node::List(items)) => collect_tags(items, field),
        Some(_) => Err(ParseError::WrongType(field)),
    }
}

/// How many cells a row supplies.
fn count_cells(row: &Node) -> (n: usize)
    ensures
        n == cell_count(*row),
{
    match row {
        Node::List(items) => items.len(),
        Node::Table(entries) => entries.len(),
        _ => 0,
    }
}

/// Reads the cell of one lane of the row at index `i`.
fn read_cell(row: &Node, i: usize, lane: Lane) -> (r: Result<CellContent, ParseError>)
    ensures
        match cell_at(*row, i as int, lane) {
            Ok(cell) => r == Ok::<CellContent, ParseError>(cell),
            Err(fault) => r is Err && r->Err_0@ == fault,
        },
{
    let cell = match row {
        Node::List(items) => if lane.index() < items.len() {
            Some(&items[lane.index()])
        } else {
            None
        },
        Node::Table(_) => row.get(lane.name()),
        _ => None,
    };
    match cell {
        Some(Node::Text(token)) => match parse_cell(token.as_str()) {
            Ok(cell) => Ok(cell),
            Err(unknown) => Err(ParseError::UnknownToken(i, lane, unknown.token)),
        },
        _ => Err(ParseError::InvalidCell(i, lane)),
    }
}

/// Reads the row at index `i`, lane by lane from the left.
fn read_row(row: &Node, i: usize) -> (r: Result<PatternRow, ParseError>)
    ensures
        match row_at(*row, i as int) {
            Ok(cells) => r == Ok::<PatternRow, ParseError>(cells),
            Err(fault) => r is Err && r->Err_0@ == fault,
        },
{
    let left = match read_cell(row, i, Lane::Left) {
        Ok(cell) => cell,
        Err(e) => {
            return Err(e);
        },
    };
    let middle = match read_cell(row, i, Lane::Middle) {
        Ok(cell) => cell,
        Err(e) => {
            return Err(e);
        },
    };
    let right = match read_cell(row, i, Lane::Right) {
        Ok(cell) => cell,
        Err(e) => {
            return Err(e);
        },
    };
    Ok(PatternRow { left, middle, right })
}

/// Reads a list of rows as a grid.
fn read_rows(rows: &Vec<Node>) -> (r: Result<Vec<PatternRow>, ParseError>)
    ensures
        match grid_of(rows@) {
            Ok(grid) => r is Ok && r->Ok_0@ == grid,
            Err(fault) => r is Err && r->Err_0@ == fault,
        },
{
    let mut i: usize = 0;
    while i < rows.len()
        invariant
            i <= rows.len(),
            forall|j: int| 0 <= j < i ==> !#[trigger] malformed()(j, rows@[j]),
        decreases rows.len() - i,
    {
        let found = count_cells(&rows[i]);
        if found != 3 {
            proof {
                lemma_first_index_found(rows@, malformed(), i as int);
            }
            return Err(ParseError::MalformedRow(i, found));
        }
        i += 1;
    }
    let mut grid: Vec<PatternRow> = Vec::new();
    let mut k: usize = 0;
    while k < rows.len()
        invariant
            k <= rows.len(),
            first_index(rows@, malformed()) is None,
            grid@.len() == k,
            forall|j: int| 0 <= j < k ==> !#[trigger] unreadable()(j, rows@[j]),
            forall|j: int| 0 <= j < k ==> row_at(rows@[j], j) == Ok::<PatternRow, ParseFault>(#[trigger] grid@[j]),
        decreases rows.len() - k,
    {
        match read_row(&rows[k], k) {
            Ok(row) => {
                grid.push(row);
            },
            Err(e) => {
                proof {
                    lemma_first_index_found(rows@, unreadable(), k as int);
                }
                return Err(e);
            },
        }
        k += 1;
    }
    Ok(grid)
}

/// Reads the field that holds the grid.
fn read_grid(doc: &Node) -> (r: Result<Vec<PatternRow>, ParseError>)
    ensures
        match grid_field(*doc) {
            Ok(grid) => r is Ok && r->Ok_0@ == grid,
            Err(fault) => r is Err && r->Err_0@ == fault,
        },
{
    match find_field(doc, Field::Pattern) {
        None => Err(ParseError::MissingField(Field::Pattern)),
        Some(Node::List(rows)) => read_rows(rows),
        Some(_) => Err(ParseError::WrongType(Field::Pattern)),
    }
}

/// Striking out repetitions leaves every tag in, once.
pub proof fn lemma_distinct(tags: Seq<Seq<char>>)
    ensures
        distinct(tags).no_duplicates(),
        forall|tag: Seq<char>| distinct(tags).contains(tag) <==> tags.contains(tag),
    decreases tags.len(),
{
    broadcast use lemma_seq_contains_after_push;

    if tags.len() > 0 {
        lemma_distinct(tags.drop_last());
        assert(tags =~= tags.drop_last().push(tags.last()));
    }
}

/// What is read from a document is well formed.
pub proof fn lemma_decoded_well_formed(doc: Node)
    ensures
        decoded(doc) matches Ok(pattern) ==> pattern.well_formed(),
{
    if let Ok(pattern) = decoded(doc) {
        lemma_tags_well_formed(doc, Field::LeadsFrom);
        lemma_tags_well_formed(doc, Field::LeadsTo);
    }
}

/// The tags read from a field are a set written down once.
proof fn lemma_tags_well_formed(doc: Node, field: Field)
    ensures
        tag_field(doc, field) matches Ok(tags) ==> tags_well_formed(tags),
{
    if let Ok(tags) = tag_field(doc, field) {
        let items = field_value(doc, field)->Some_0->List_0@;
        lemma_distinct(texts_of(items));
        assert forall|i: int| 0 <= i < tags.len() implies (#[trigger] tags[i]).len() > 0 by {
            assert(texts_of(items).contains(tags[i]));
        }
    }
}

/// A row that is not three cells wide makes the document unreadable,
/// whatever else the document holds: the fault names the first such row and
/// the number of cells found in it.
pub proof fn lemma_malformed_row_rejected(doc: Node, rows: Vec<Node>, i: int)
    requires
        field_value(doc, Field::Pattern) == Some(Node::List(rows)),
        0 <= i < rows@.len(),
        cell_count(rows@[i]) != 3,
    ensures
        decoded(doc) matches Err(ParseFault::MalformedRow(at, found)) && 0 <= at <= i && found
            == cell_count(rows@[at]) && found != 3,
{
    lemma_least_exists(rows@, malformed(), i);
}

/// A text whose document has a row that is not three cells wide is no
/// pattern: reading it fails, and the fault is that of the first such row.
pub proof fn lemma_malformed_row_fails_parse(text: Seq<char>, doc: Node, rows: Vec<Node>, i: int)
    requires
        toml_document(text) == Ok::<Node, String>(doc),
        field_value(doc, Field::Pattern) == Some(Node::List(rows)),
        0 <= i < rows@.len(),
        cell_count(rows@[i]) != 3,
    ensures
        parsed(text) matches Err(ParseFault::MalformedRow(at, found)) && 0 <= at <= i && found
            == cell_count(rows@[at]) && found != 3,
{
    lemma_malformed_row_rejected(doc, rows, i);
}

/// Reads a pattern from a document.
pub fn decode(doc: &Node) -> (r: Result<Pattern, ParseError>)
    ensures
        match decoded(*doc) {
            Ok(pattern) => r is Ok && r->Ok_0@ == pattern,
            Err(fault) => r is Err && r->Err_0@ == fault,
        },
        r is Ok ==> r->Ok_0@.well_formed(),
{
    proof {
        lemma_decoded_well_formed(*doc);
    }
    let rows = match read_grid(doc) {
        Ok(rows) => rows,
        Err(e) => {
            return Err(e);
        },
    };
    let unique_name = match read_filled(doc, Field::UniqueName) {
        Ok(text) => text,
        Err(e) => {
            return Err(e);
        },
    };
    let name = match read_text(doc, Field::Name) {
        Ok(text) => text,
        Err(e) => {
            return Err(e);
        },
    };
    let version = match read_filled(doc, Field::Version) {
        Ok(text) => text,
        Err(e) => {
            return Err(e);
        },
    };
    let leads_from = match read_tags(doc, Field::LeadsFrom) {
        Ok(tags) => tags,
        Err(e) => {
            return Err(e);
        },
    };
    let leads_to = match read_tags(doc, Field::LeadsTo) {
        Ok(tags) => tags,
        Err(e) => {
            return Err(e);
        },
    };
    let start = match read_flag(doc, Field::Start) {
        Ok(flag) => flag,
        Err(e) => {
            return Err(e);
        },
    };
    let terminal = match read_flag(doc, Field::Terminal) {
        Ok(flag) => flag,
        Err(e) => {
            return Err(e);
        },
    };
    let pattern = Pattern {
        metadata: PatternMetadata { unique_name, name, version },
        leads_from,
        leads_to,
        rows,
        start,
        terminal,
    };
    Ok(pattern)
}

/// Reads a pattern from TOML text.
pub fn parse(text: &str) -> (r: Result<Pattern, ParseError>)
    ensures
        match parsed(text@) {
            Ok(pattern) => r is Ok && r->Ok_0@ == pattern,
            Err(fault) => r is Err && r->Err_0@ == fault,
        },
        r is Ok ==> r->Ok_0@.well_formed(),
{
    match read_document(text) {
        Ok(doc) => decode(&doc),
        Err(message) => Err(ParseError::Syntax(message)),
    }
}

} // verus!

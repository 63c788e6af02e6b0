//! A plain model of the dictionary tables of a page: what the extraction logic reads of
//! the markup, held as plain strings. The page's reader fills it from the parsed document;
//! every later step works on it alone.
use vstd::prelude::*;
use crate::text::texts_view;

verus! {

/// One table cell (`td`) of a table row.
#[derive(Clone, Debug)]
pub struct Cell {
    /// The cell's `class` attribute, as written.
    pub class: Option<String>,
    /// The text nodes under the cell, in document order.
    pub texts: Vec<String>,
    /// For each `strong` element under the cell: its text nodes.
    pub strongs: Vec<Vec<String>>,
    /// For each part-of-speech element (`em.POS2`) under the cell: its text nodes.
    pub pos_tags: Vec<Vec<String>>,
    /// For each sense element (`span.dsense`) under the cell: its text nodes.
    pub senses: Vec<Vec<String>>,
}

/// One table row (`tr`) of a dictionary table.
#[derive(Clone, Debug)]
pub struct Row {
    /// The row's `class` attribute, as written.
    pub class: Option<String>,
    /// The row's `id` attribute.
    pub id: Option<String>,
    /// For each headword element (`strong` under a `td.FrWrd`) of the row: its text nodes.
    pub head_words: Vec<Vec<String>>,
    /// The cells of the row, in document order.
    pub cells: Vec<Cell>,
}

/// One dictionary table of a page.
#[derive(Clone, Debug)]
pub struct Table {
    /// The `title` attribute of each header cell (`td` under `tr.wrtopsection`).
    pub headers: Vec<Option<String>>,
    /// The rows of the table, in document order.
    pub rows: Vec<Row>,
}

pub ghost struct CellView {
    pub class: Option<Seq<char>>,
    pub texts: Seq<Seq<char>>,
    pub strongs: Seq<Seq<Seq<char>>>,
    pub pos_tags: Seq<Seq<Seq<char>>>,
    pub senses: Seq<Seq<Seq<char>>>,
}

pub ghost struct RowView {
    pub class: Option<Seq<char>>,
    pub id: Option<Seq<char>>,
    pub head_words: Seq<Seq<Seq<char>>>,
    pub cells: Seq<CellView>,
}

pub ghost struct TableView {
    pub headers: Seq<Option<Seq<char>>>,
    pub rows: Seq<RowView>,
}

pub open spec fn opt_view(o: Option<String>) -> Option<Seq<char>> {
    match o {
        Some(s) => Some(s@),
        None => None,
    }
}

pub open spec fn nested_view(v: Seq<Vec<String>>) -> Seq<Seq<Seq<char>>> {
    v.map_values(|t: Vec<String>| texts_view(t@))
}

pub open spec fn cells_view(v: Seq<Cell>) -> Seq<CellView> {
    v.map_values(|c: Cell| c@)
}

pub open spec fn rows_view(v: Seq<Row>) -> Seq<RowView> {
    v.map_values(|w: Row| w@)
}

impl View for Cell {
    type V = CellView;

    open spec fn view(&self) -> CellView {
        CellView {
            class: opt_view(self.class),
            texts: texts_view(self.texts@),
            strongs: nested_view(self.strongs@),
            pos_tags: nested_view(self.pos_tags@),
            senses: nested_view(self.senses@),
        }
    }
}

impl View for Row {
    type V = RowView;

    open spec fn view(&self) -> RowView {
        RowView {
            class: opt_view(self.class),
            id: opt_view(self.id),
            head_words: nested_view(self.head_words@),
            cells: cells_view(self.cells@),
        }
    }
}

impl View for Table {
    type V = TableView;

    open spec fn view(&self) -> TableView {
        TableView {
            headers: self.headers@.map_values(|h: Option<String>| opt_view(h)),
            rows: rows_view(self.rows@),
        }
    }
}

/// Whether two attribute values are the same: both absent, or both present and equal.
pub fn same_attr(a: &Option<String>, b: &Option<String>) -> (r: bool)
    ensures
        r == (opt_view(*a) == opt_view(*b)),
{
    match (a, b) {
        (Some(x), Some(y)) => *x == *y,
        (None, None) => true,
        _ => false,
    }
}

/// Whether an attribute value is present and equal to `s`.
pub fn attr_is(a: &Option<String>, s: &str) -> (r: bool)
    ensures
        r == (opt_view(*a) == Some(s@)),
{
    match a {
        Some(x) => *x == String::from_str(s),
        None => false,
    }
}

} // verus!

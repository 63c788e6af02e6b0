//! Reading a page's markup into the plain table model, through the `scraper` crate, and
//! the page's one entry point.
use vstd::prelude::*;
use scraper::{ElementRef, Html, Selector};
use crate::model::{Cell, Row, Table, TableView};
use crate::page::{PageView, ScrapeError, ScrapeErrorView, WordReferencePage, page_spec, scrape_tables, tables_view};

verus! {

#[verifier::external_type_specification]
#[verifier::external_body]
pub struct ExSelector(Selector);

#[verifier::external_type_specification]
#[verifier::external_body]
pub struct ExElementRef<'a>(ElementRef<'a>);

/// The selectors that the reader compiles: plain type, class and descendant selectors.
pub open spec fn is_reader_selector(text: Seq<char>) -> bool {
    text == TABLE_SELECTOR@ || text == HEADER_SELECTOR@ || text == ROW_SELECTOR@
        || text == CELL_SELECTOR@ || text == HEADWORD_SELECTOR@ || text == STRONG_SELECTOR@
        || text == POS_SELECTOR@ || text == SENSE_SELECTOR@
}

/// Relies on `scraper::Selector::parse`: a refused selector gives `None`; the reader's
/// selectors, made of type names, classes and the descendant combinator only, are accepted.
#[verifier::external_body]
fn compile_selector(text: &str) -> (r: Option<Selector>)
    ensures
        is_reader_selector(text@) ==> r is Some,
{
    Selector::parse(text).ok()
}

/// The dictionary tables of a page, in document order, as the reader finds them in its
/// markup. The result depends on the markup alone: the parser builds the same document
/// from the same text, and the reader's selectors are always the same fixed set.
pub uninterp spec fn markup_tables(markup: Seq<char>) -> Seq<TableView>;

/// Relies on `scraper::Html::parse_fragment` to build the document from `markup` and on
/// `scraper::Html::select` to find its dictionary tables in document order; each table is
/// read into the model by `read_table`. Every `Selectors` holds the same compiled set, so
/// the result is a function of the markup.
#[verifier::external_body]
fn read_tables(markup: &str, sels: &Selectors) -> (r: Vec<Table>)
    ensures
        tables_view(r@) == markup_tables(markup@),
{
    let doc = Html::parse_fragment(markup);
    doc.select(&sels.table).map(|t| read_table(&t, sels)).collect()
}

/// Relies on `scraper::ElementRef::select`: the element's descendants that match, in
/// document order.
#[verifier::external_body]
fn select_in<'a>(element: &ElementRef<'a>, selector: &Selector) -> (r: Vec<ElementRef<'a>>) {
    element.select(selector).collect()
}

/// Relies on `scraper::ElementRef::attr`: the value of the element's attribute `name`.
#[verifier::external_body]
fn attribute(element: &ElementRef, name: &str) -> (r: Option<String>) {
    element.attr(name).map(String::from)
}

/// Relies on `scraper::ElementRef::text`: the text nodes under the element, in document order.
#[verifier::external_body]
fn text_pieces(element: &ElementRef) -> (r: Vec<String>) {
    element.text().map(String::from).collect()
}

/// The selector for a dictionary table.
pub const TABLE_SELECTOR: &'static str = "table.WRD.clickTranslate.noTapHighlight";
/// The selector for the header cells of a table.
pub const HEADER_SELECTOR: &'static str = "tr.wrtopsection td";
/// The selector for the rows of a table.
pub const ROW_SELECTOR: &'static str = "tr";
/// The selector for the cells of a row.
pub const CELL_SELECTOR: &'static str = "td";
/// The selector for the headword elements of a row.
pub const HEADWORD_SELECTOR: &'static str = "td.FrWrd strong";
/// The selector for the emphasised words of a cell.
pub const STRONG_SELECTOR: &'static str = "strong";
/// The selector for the part-of-speech elements of a cell.
pub const POS_SELECTOR: &'static str = "em.POS2";
/// The selector for the sense elements of a cell.
pub const SENSE_SELECTOR: &'static str = "span.dsense";

/// The selectors that the reader uses, compiled once. `Selectors::new` is the only way
/// to make one, so every value holds the same set.
pub struct Selectors {
    table: Selector,
    header: Selector,
    row: Selector,
    cell: Selector,
    head_word: Selector,
    strong: Selector,
    pos_tag: Selector,
    sense: Selector,
}

impl Selectors {
    /// Compiles the reader's selectors, once for any number of pages.
    pub fn new() -> (r: Selectors) {
        let table = compile_selector(TABLE_SELECTOR).unwrap();
        let header = compile_selector(HEADER_SELECTOR).unwrap();
        let row = compile_selector(ROW_SELECTOR).unwrap();
        let cell = compile_selector(CELL_SELECTOR).unwrap();
        let head_word = compile_selector(HEADWORD_SELECTOR).unwrap();
        let strong = compile_selector(STRONG_SELECTOR).unwrap();
        let pos_tag = compile_selector(POS_SELECTOR).unwrap();
        let sense = compile_selector(SENSE_SELECTOR).unwrap();
        Selectors { table, header, row, cell, head_word, strong, pos_tag, sense }
    }
}

/// For each descendant of `element` that `selector` matches: its text nodes.
fn texts_of_each(element: &ElementRef, selector: &Selector) -> (r: Vec<Vec<String>>) {
    let found = select_in(element, selector);
    let mut out: Vec<Vec<String>> = Vec::new();
    let mut i: usize = 0;
    while i < found.len()
        invariant
            i <= found@.len(),
            out@.len() == i,
        decreases found@.len() - i,
    {
        out.push(text_pieces(&found[i]));
        i = i + 1;
    }
    out
}

fn read_cell(td: &ElementRef, sels: &Selectors) -> (r: Cell) {
    Cell {
        class: attribute(td, "class"),
        texts: text_pieces(td),
        strongs: texts_of_each(td, &sels.strong),
        pos_tags: texts_of_each(td, &sels.pos_tag),
        senses: texts_of_each(td, &sels.sense),
    }
}

fn read_row(tr: &ElementRef, sels: &Selectors) -> (r: Row) {
    let tds = select_in(tr, &sels.cell);
    let mut cells: Vec<Cell> = Vec::new();
    let mut i: usize = 0;
    while i < tds.len()
        invariant
            i <= tds@.len(),
            cells@.len() == i,
        decreases tds@.len() - i,
    {
        cells.push(read_cell(&tds[i], sels));
        i = i + 1;
    }
    Row {
        class: attribute(tr, "class"),
        id: attribute(tr, "id"),
        head_words: texts_of_each(tr, &sels.head_word),
        cells,
    }
}

fn read_table(table: &ElementRef, sels: &Selectors) -> (r: Table) {
    let header_cells = select_in(table, &sels.header);
    let mut headers: Vec<Option<String>> = Vec::new();
    let mut i: usize = 0;
    while i < header_cells.len()
        invariant
            i <= header_cells@.len(),
            headers@.len() == i,
        decreases header_cells@.len() - i,
    {
        headers.push(attribute(&header_cells[i], "title"));
        i = i + 1;
    }
    let trs = select_in(table, &sels.row);
    let mut rows: Vec<Row> = Vec::new();
    let mut j: usize = 0;
    while j < trs.len()
        invariant
            j <= trs@.len(),
            rows@.len() == j,
        decreases trs@.len() - j,
    {
        rows.push(read_row(&trs[j], sels));
        j = j + 1;
    }
    Table { headers, rows }
}

/// Extracts the record of one dictionary page from its markup: the page's dictionary
/// tables are read in document order and assembled as `scrape_tables` does, so the result
/// is what `page_spec` gives for the tables in the markup.
pub fn scrape_page_html(html: String) -> (r: Result<WordReferencePage, ScrapeError>)
    ensures
        match r {
            Ok(p) => page_spec(markup_tables(html@)) == Ok::<PageView, ScrapeErrorView>(p@),
            Err(e) => page_spec(markup_tables(html@)) == Err::<PageView, ScrapeErrorView>(e@),
        },
{
    let sels = Selectors::new();
    let tables = read_tables(html.as_str(), &sels);
    scrape_tables(&tables)
}

} // verus!

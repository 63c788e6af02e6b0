//! The section classifier and the page assembler.
use vstd::prelude::*;
use crate::model::{Row, RowView, Table, TableView, attr_is, rows_view};
use crate::grouping::{group_rows, groups_view, lemma_runs_bounded, runs};
use crate::entry::{
    DefinitionEntry, EntryError, EntryView, GLOSS_CLASS, HEADWORD_CLASS, TaggedView, entry_spec, extract_table_entry,
    group_source_pairs, group_targets, row_source_pairs, row_targets, source_def, target_def, valid_group,
};
use crate::text::texts_view;

verus! {

/// The class of the rows that hold entries; rows of any other class (section headers,
/// spacers) are left out before grouping.
pub const ODD_ROW_CLASS: &'static str = "odd";
/// The other class of the rows that hold entries.
pub const EVEN_ROW_CLASS: &'static str = "even";
/// The header title of the principal translations table.
pub const PRINCIPAL_TITLE: &'static str = "Principal Translations";
/// The header title of the additional translations table.
pub const ADDITIONAL_TITLE: &'static str = "Additional Translations";
/// The header title of the compound forms table.
pub const COMPOUND_TITLE: &'static str = "Compound Forms";

/// The known sections of a dictionary page.
#[derive(Clone, Copy, Debug, PartialEq, Eq, Structural)]
pub enum PageSection {
    PrincipalTranslations,
    AdditionalTranslations,
    CompoundForms,
}

/// Why a page gives no record. Tables are counted from 0 in document order, and so are
/// the entries (row groups) of a table.
#[derive(Clone, Debug)]
pub enum ScrapeError {
    /// The table does not have exactly one header cell.
    MissingSectionHeader { table: usize },
    /// The table's header cell has no title attribute.
    MissingSectionTitle { table: usize },
    /// The table's header title names no known section.
    UnknownSectionTitle { table: usize, title: String },
    /// An entry of the table could not be built.
    Entry { section: PageSection, entry: usize, error: EntryError },
}

pub ghost enum ScrapeErrorView {
    MissingSectionHeader { table: int },
    MissingSectionTitle { table: int },
    UnknownSectionTitle { table: int, title: Seq<char> },
    Entry { section: PageSection, entry: int, error: EntryError },
}

impl View for ScrapeError {
    type V = ScrapeErrorView;

    open spec fn view(&self) -> ScrapeErrorView {
        match *self {
            ScrapeError::MissingSectionHeader { table } => ScrapeErrorView::MissingSectionHeader {
                table: table as int,
            },
            ScrapeError::MissingSectionTitle { table } => ScrapeErrorView::MissingSectionTitle {
                table: table as int,
            },
            ScrapeError::UnknownSectionTitle { table, title } => ScrapeErrorView::UnknownSectionTitle {
                table: table as int,
                title: title@,
            },
            ScrapeError::Entry { section, entry, error } => ScrapeErrorView::Entry {
                section,
                entry: entry as int,
                error,
            },
        }
    }
}

/// The record of one dictionary page.
#[derive(Clone, Debug)]
pub struct WordReferencePage {
    pub principal_translations: Vec<DefinitionEntry>,
    pub additional_translations: Vec<DefinitionEntry>,
    pub compound_forms: Vec<DefinitionEntry>,
    /// Related source-language forms: not read from the page yet, always empty.
    pub also_appears_in_spanish: Vec<String>,
    /// Related target-language forms: not read from the page yet, always empty.
    pub also_appears_in_english: Vec<String>,
}

pub ghost struct PageView {
    pub principal: Seq<EntryView>,
    pub additional: Seq<EntryView>,
    pub compound: Seq<EntryView>,
    pub also_source: Seq<Seq<char>>,
    pub also_target: Seq<Seq<char>>,
}

pub open spec fn entries_view(v: Seq<DefinitionEntry>) -> Seq<EntryView> {
    v.map_values(|e: DefinitionEntry| e@)
}

impl View for WordReferencePage {
    type V = PageView;

    open spec fn view(&self) -> PageView {
        PageView {
            principal: entries_view(self.principal_translations@),
            additional: entries_view(self.additional_translations@),
            compound: entries_view(self.compound_forms@),
            also_source: texts_view(self.also_appears_in_spanish@),
            also_target: texts_view(self.also_appears_in_english@),
        }
    }
}

/// The section that a header title names, if any.
pub open spec fn section_of_title(title: Seq<char>) -> Option<PageSection> {
    if title == PRINCIPAL_TITLE@ {
        Some(PageSection::PrincipalTranslations)
    } else if title == ADDITIONAL_TITLE@ {
        Some(PageSection::AdditionalTranslations)
    } else if title == COMPOUND_TITLE@ {
        Some(PageSection::CompoundForms)
    } else {
        None
    }
}

pub open spec fn is_entry_row(r: RowView) -> bool {
    r.class == Some(ODD_ROW_CLASS@) || r.class == Some(EVEN_ROW_CLASS@)
}

/// The indices of the entry rows among the first `n` rows, in order.
pub open spec fn entry_picks(rows: Seq<RowView>, n: int) -> Seq<usize>
    decreases n,
{
    if n <= 0 {
        Seq::empty()
    } else if is_entry_row(rows[n - 1]) {
        entry_picks(rows, n - 1).push((n - 1) as usize)
    } else {
        entry_picks(rows, n - 1)
    }
}

/// The row groups of a table: its entry rows, split into runs of one class.
pub open spec fn table_groups(rows: Seq<RowView>) -> Seq<Seq<usize>> {
    runs(rows, entry_picks(rows, rows.len() as int))
}

/// The entries of the first `n` groups; an empty group gives none, and the first group
/// that gives an error fails the section.
pub open spec fn section_entries(
    rows: Seq<RowView>,
    groups: Seq<Seq<usize>>,
    section: PageSection,
    n: int,
) -> Result<Seq<EntryView>, ScrapeErrorView>
    decreases n,
{
    if n <= 0 {
        Ok(Seq::empty())
    } else {
        match section_entries(rows, groups, section, n - 1) {
            Err(e) => Err(e),
            Ok(es) => if groups[n - 1].len() == 0 {
                Ok(es)
            } else {
                match entry_spec(rows, groups[n - 1]) {
                    Err(error) => Err(ScrapeErrorView::Entry { section, entry: n - 1, error }),
                    Ok(e) => Ok(es.push(e)),
                }
            },
        }
    }
}

/// What table number `index` gives: its section and entries, or why it gives none.
pub open spec fn table_spec(t: TableView, index: int) -> Result<(PageSection, Seq<EntryView>), ScrapeErrorView> {
    if t.headers.len() != 1 {
        Err(ScrapeErrorView::MissingSectionHeader { table: index })
    } else {
        match t.headers[0] {
            None => Err(ScrapeErrorView::MissingSectionTitle { table: index }),
            Some(title) => match section_of_title(title) {
                None => Err(ScrapeErrorView::UnknownSectionTitle { table: index, title }),
                Some(section) => {
                    let groups = table_groups(t.rows);
                    match section_entries(t.rows, groups, section, groups.len() as int) {
                        Err(e) => Err(e),
                        Ok(es) => Ok((section, es)),
                    }
                },
            },
        }
    }
}

pub open spec fn empty_page() -> PageView {
    PageView {
        principal: Seq::empty(),
        additional: Seq::empty(),
        compound: Seq::empty(),
        also_source: Seq::empty(),
        also_target: Seq::empty(),
    }
}

/// The page with the entries of `section` replaced by `es`.
pub open spec fn with_section(p: PageView, section: PageSection, es: Seq<EntryView>) -> PageView {
    match section {
        PageSection::PrincipalTranslations => PageView { principal: es, ..p },
        PageSection::AdditionalTranslations => PageView { additional: es, ..p },
        PageSection::CompoundForms => PageView { compound: es, ..p },
    }
}

/// The record of a page with these tables: each table in document order sets the
/// entries of its section (a later table of the same section replaces an earlier one),
/// sections without a table stay empty, and the first table that fails fails the page.
pub open spec fn page_spec(tables: Seq<TableView>) -> Result<PageView, ScrapeErrorView>
    decreases tables.len(),
{
    if tables.len() == 0 {
        Ok(empty_page())
    } else {
        match page_spec(tables.drop_last()) {
            Err(e) => Err(e),
            Ok(p) => match table_spec(tables.last(), tables.len() - 1) {
                Err(e) => Err(e),
                Ok((section, es)) => Ok(with_section(p, section, es)),
            },
        }
    }
}

pub open spec fn tables_view(v: Seq<Table>) -> Seq<TableView> {
    v.map_values(|t: Table| t@)
}

/// The indices of a table's entry rows (class `odd` or `even`), in document order.
fn entry_rows(rows: &Vec<Row>) -> (r: Vec<usize>)
    ensures
        r@ == entry_picks(rows_view(rows@), rows@.len() as int),
        forall|m: int| 0 <= m < r@.len() ==> r@[m] < rows@.len(),
{
    let ghost rv = rows_view(rows@);
    let mut picks: Vec<usize> = Vec::new();
    let mut i: usize = 0;
    while i < rows.len()
        invariant
            i <= rows@.len(),
            rv == rows_view(rows@),
            picks@ == entry_picks(rv, i as int),
            forall|m: int| 0 <= m < picks@.len() ==> picks@[m] < i,
        decreases rows@.len() - i,
    {
        if attr_is(&rows[i].class, ODD_ROW_CLASS) || attr_is(&rows[i].class, EVEN_ROW_CLASS) {
            picks.push(i);
        }
        i = i + 1;
    }
    picks
}

/// Splits a table into its row groups: the rows of class `odd` or `even` are kept, in
/// document order, and split into runs of one class. Each group lists indices into the
/// table's rows. A table without such rows gives one empty group.
pub fn split_table_into_entries(table: &Table) -> (r: Vec<Vec<usize>>)
    ensures
        groups_view(r@) == table_groups(rows_view(table.rows@)),
        forall|i: int| 0 <= i < r@.len() ==> valid_group(table.rows@, #[trigger] r@[i]@),
{
    let picks = entry_rows(&table.rows);
    let r = group_rows(&table.rows, &picks);
    proof {
        let rv = rows_view(table.rows@);
        lemma_runs_bounded(rv, picks@, table.rows@.len() as int);
        assert forall|i: int| 0 <= i < r@.len() implies valid_group(table.rows@, #[trigger] r@[i]@) by {
            assert(groups_view(r@)[i] == r@[i]@);
        }
    }
    r
}

/// The section that a header title names, if any.
pub fn section_for_title(title: &String) -> (r: Option<PageSection>)
    ensures
        r == section_of_title(title@),
{
    if *title == String::from_str(PRINCIPAL_TITLE) {
        Some(PageSection::PrincipalTranslations)
    } else if *title == String::from_str(ADDITIONAL_TITLE) {
        Some(PageSection::AdditionalTranslations)
    } else if *title == String::from_str(COMPOUND_TITLE) {
        Some(PageSection::CompoundForms)
    } else {
        None
    }
}

/// Reads table number `index` of a page: its one header cell's title names the section,
/// and each non-empty row group gives one entry, in order. The first entry that fails
/// fails the table, with the section and the group's index.
pub fn scrape_page_section(table: &Table, index: usize) -> (r: Result<(PageSection, Vec<DefinitionEntry>), ScrapeError>)
    ensures
        match r {
            Ok((section, es)) => table_spec(table@, index as int) == Ok::<_, ScrapeErrorView>((section, entries_view(es@))),
            Err(e) => table_spec(table@, index as int) == Err::<(PageSection, Seq<EntryView>), _>(e@),
        },
{
    if table.headers.len() != 1 {
        return Err(ScrapeError::MissingSectionHeader { table: index });
    }
    let title = match &table.headers[0] {
        None => {
            return Err(ScrapeError::MissingSectionTitle { table: index });
        },
        Some(t) => t,
    };
    let section = match section_for_title(title) {
        None => {
            return Err(ScrapeError::UnknownSectionTitle { table: index, title: title.clone() });
        },
        Some(s) => s,
    };
    let ghost rv = rows_view(table.rows@);
    let groups = split_table_into_entries(table);
    let mut entries: Vec<DefinitionEntry> = Vec::new();
    assert(entries_view(entries@) =~= Seq::empty());
    assert(table@.headers[0] == Some(title@));
    let ghost whole = match section_entries(rv, groups_view(groups@), section, groups@.len() as int) {
        Err(e) => Err(e),
        Ok(es) => Ok((section, es)),
    };
    assert(table_spec(table@, index as int) == whole);
    let mut i: usize = 0;
    while i < groups.len()
        invariant
            i <= groups@.len(),
            rv == rows_view(table.rows@),
            groups_view(groups@) == table_groups(rv),
            forall|g: int| 0 <= g < groups@.len() ==> valid_group(table.rows@, #[trigger] groups@[g]@),
            section_entries(rv, groups_view(groups@), section, i as int) == Ok::<_, ScrapeErrorView>(entries_view(entries@)),
            table_spec(table@, index as int) == whole,
            whole == match section_entries(rv, groups_view(groups@), section, groups@.len() as int) {
                Err(e) => Err(e),
                Ok(es) => Ok((section, es)),
            },
        decreases groups@.len() - i,
    {
        assert(groups_view(groups@)[i as int] == groups@[i as int]@);
        if groups[i].len() > 0 {
            match extract_table_entry(&table.rows, &groups[i]) {
                Err(error) => {
                    proof {
                        assert(section_entries(rv, groups_view(groups@), section, i + 1) == Err::<Seq<EntryView>, ScrapeErrorView>(ScrapeErrorView::Entry { section, entry: i as int, error }));
                        lemma_section_error_stays(rv, groups_view(groups@), section, i + 1, groups@.len() as int);
                    }
                    return Err(ScrapeError::Entry { section, entry: i, error });
                },
                Ok(e) => {
                    let ghost before = entries_view(entries@);
                    entries.push(e);
                    assert(entries_view(entries@) =~= before.push(e@));
                },
            }
        }
        i = i + 1;
    }
    Ok((section, entries))
}

/// Assembles the record of a page from its dictionary tables, in document order: each
/// table sets the entries of its section (a later table of the same section replaces an
/// earlier one), a section without a table stays empty, and the first table that fails
/// fails the page. The related forms are left empty.
pub fn scrape_tables(tables: &Vec<Table>) -> (r: Result<WordReferencePage, ScrapeError>)
    ensures
        match r {
            Ok(p) => page_spec(tables_view(tables@)) == Ok::<PageView, ScrapeErrorView>(p@),
            Err(e) => page_spec(tables_view(tables@)) == Err::<PageView, ScrapeErrorView>(e@),
        },
{
    let ghost tv = tables_view(tables@);
    let mut page = WordReferencePage {
        principal_translations: Vec::new(),
        additional_translations: Vec::new(),
        compound_forms: Vec::new(),
        also_appears_in_spanish: Vec::new(),
        also_appears_in_english: Vec::new(),
    };
    assert(page@.principal =~= Seq::empty());
    assert(page@.additional =~= Seq::empty());
    assert(page@.compound =~= Seq::empty());
    assert(page@.also_source =~= Seq::empty());
    assert(page@.also_target =~= Seq::empty());
    let mut i: usize = 0;
    while i < tables.len()
        invariant
            i <= tables@.len(),
            tv == tables_view(tables@),
            page_spec(tv.subrange(0, i as int)) == Ok::<PageView, ScrapeErrorView>(page@),
        decreases tables@.len() - i,
    {
        let ghost prefix = tv.subrange(0, i + 1);
        assert(prefix.drop_last() == tv.subrange(0, i as int));
        assert(prefix.last() == tables@[i as int]@);
        match scrape_page_section(&tables[i], i) {
            Err(e) => {
                proof {
                    lemma_page_error_stays(tv, i as int + 1);
                }
                return Err(e);
            },
            Ok((section, es)) => {
                match section {
                    PageSection::PrincipalTranslations => {
                        page.principal_translations = es;
                    },
                    PageSection::AdditionalTranslations => {
                        page.additional_translations = es;
                    },
                    PageSection::CompoundForms => {
                        page.compound_forms = es;
                    },
                }
                assert(page@ =~= with_section(page_spec(tv.subrange(0, i as int))->Ok_0, section, entries_view(es@)));
            },
        }
        i = i + 1;
    }
    assert(tv.subrange(0, tv.len() as int) == tv);
    Ok(page)
}

/// A page without dictionary tables gives a record with every section empty, and no error.
pub proof fn lemma_no_tables_empty_page()
    ensures
        page_spec(Seq::empty()) == Ok::<PageView, ScrapeErrorView>(empty_page()),
        empty_page().principal.len() == 0,
        empty_page().additional.len() == 0,
        empty_page().compound.len() == 0,
{
}

/// A row that is a whole entry by itself: of class `class`, with a non-empty identifier,
/// one headword with text, and three cells: a headword cell with one `strong` with text,
/// a definition cell without a class and with text, and a gloss cell with text.
pub open spec fn is_single_row_entry(r: RowView, class: Seq<char>) -> bool {
    &&& r.class == Some(class)
    &&& r.id is Some && r.id->Some_0.len() > 0
    &&& r.head_words.len() == 1 && r.head_words[0].len() > 0 && r.head_words[0][0].len() > 0
    &&& r.cells.len() == 3
    &&& r.cells[0].class == Some(HEADWORD_CLASS@)
    &&& r.cells[0].strongs.len() == 1 && r.cells[0].strongs[0].len() > 0
    &&& r.cells[1].class is None && r.cells[1].texts.len() > 0
    &&& r.cells[2].class == Some(GLOSS_CLASS@) && r.cells[2].texts.len() > 0
}

/// A page whose one table is titled "Principal Translations" and holds a header row and
/// then two entries of one row each (of class `odd`, then `even`) gives a record with two
/// principal translations, each with the identifier and headword of its row, exactly one
/// source definition taken from its row's headword/definition pair, and its row's gloss.
pub proof fn lemma_two_entry_principal_page(t: TableView)
    requires
        t.headers == seq![Some(PRINCIPAL_TITLE@)],
        t.rows.len() == 3,
        !is_entry_row(t.rows[0]),
        is_single_row_entry(t.rows[1], ODD_ROW_CLASS@),
        is_single_row_entry(t.rows[2], EVEN_ROW_CLASS@),
    ensures
        page_spec(seq![t]) is Ok,
        ({
            let p = page_spec(seq![t])->Ok_0;
            &&& p.principal.len() == 2
            &&& p.additional.len() == 0
            &&& p.compound.len() == 0
            &&& forall|i: int| 0 <= i < 2 ==> {
                let r = #[trigger] t.rows[i + 1];
                &&& p.principal[i].id == r.id->Some_0
                &&& p.principal[i].id.len() > 0
                &&& p.principal[i].word == r.head_words[0][0]
                &&& p.principal[i].word.len() > 0
                &&& Some(p.principal[i].source) == source_def(r.cells[0], r.cells[1])
                &&& p.principal[i].targets == seq![target_def(r.cells[1], r.cells[2])->Some_0]
            }
        }),
{
    reveal_strlit("odd");
    reveal_strlit("even");
    reveal_strlit("FrWrd");
    reveal_strlit("ToWrd");
    reveal_strlit("Principal Translations");
    let rows = t.rows;
    assert(entry_picks(rows, 0) == Seq::<usize>::empty());
    assert(entry_picks(rows, 1) == Seq::<usize>::empty());
    assert(entry_picks(rows, 2) == seq![1usize]);
    assert(entry_picks(rows, 3) == seq![1usize, 2usize]);
    let picks = seq![1usize, 2usize];
    assert(picks.drop_last() == seq![1usize]);
    assert(ODD_ROW_CLASS@.len() == 3 && EVEN_ROW_CLASS@.len() == 4);
    assert(rows[1].class != rows[2].class);
    let groups = table_groups(rows);
    assert(runs(rows, seq![1usize]) == seq![seq![1usize]]);
    assert(picks.last() == 2usize && picks[0] == 1usize);
    assert(groups =~= seq![seq![1usize], seq![2usize]]);
    assert forall|i: int| 1 <= i <= 2 implies {
        let r = #[trigger] rows[i];
        &&& group_source_pairs(rows, seq![i as usize], 1) == seq![(i as usize, 0int)]
        &&& group_targets(rows, seq![i as usize], 1) == seq![target_def(r.cells[1], r.cells[2])->Some_0]
    } by {
        let r = rows[i];
        let cells = r.cells;
        assert(row_source_pairs(i as usize, cells, 1) == Seq::<(usize, int)>::empty());
        assert(row_source_pairs(i as usize, cells, 2) =~= seq![(i as usize, 0int)]);
        assert(row_source_pairs(i as usize, cells, 3) =~= seq![(i as usize, 0int)]);
        assert(row_targets(cells, 1) == Seq::<TaggedView>::empty());
        assert(row_targets(cells, 2) == Seq::<TaggedView>::empty());
        assert(row_targets(cells, 3) =~= seq![target_def(cells[1], cells[2])->Some_0]);
        assert(group_source_pairs(rows, seq![i as usize], 0) == Seq::<(usize, int)>::empty());
        assert(group_targets(rows, seq![i as usize], 0) == Seq::<TaggedView>::empty());
    }
    let e1 = entry_spec(rows, groups[0]);
    let e2 = entry_spec(rows, groups[1]);
    assert(e1 is Ok);
    assert(e2 is Ok);
    let sec = PageSection::PrincipalTranslations;
    assert(section_entries(rows, groups, sec, 0) == Ok::<Seq<EntryView>, ScrapeErrorView>(Seq::empty()));
    assert(groups[0].len() == 1 && groups[1].len() == 1);
    assert(section_entries(rows, groups, sec, 1) == Ok::<Seq<EntryView>, ScrapeErrorView>(Seq::<EntryView>::empty().push(e1->Ok_0)));
    assert(Seq::<EntryView>::empty().push(e1->Ok_0).push(e2->Ok_0) =~= seq![e1->Ok_0, e2->Ok_0]);
    assert(section_entries(rows, groups, sec, 2) == Ok::<Seq<EntryView>, ScrapeErrorView>(seq![e1->Ok_0, e2->Ok_0]));
    assert(page_spec(seq![t].drop_last()) == Ok::<PageView, ScrapeErrorView>(empty_page()));
}

/// Once the first `n` groups of a section fail, the first `m >= n` fail with the same error.
proof fn lemma_section_error_stays(
    rows: Seq<RowView>,
    groups: Seq<Seq<usize>>,
    section: PageSection,
    n: int,
    m: int,
)
    requires
        0 <= n <= m,
        section_entries(rows, groups, section, n) is Err,
    ensures
        section_entries(rows, groups, section, m) == section_entries(rows, groups, section, n),
    decreases m - n,
{
    if n < m {
        lemma_section_error_stays(rows, groups, section, n, m - 1);
    }
}

/// Once a prefix of the tables fails, every longer prefix fails with the same error.
proof fn lemma_page_error_stays(tv: Seq<TableView>, n: int)
    requires
        0 <= n <= tv.len(),
        page_spec(tv.subrange(0, n)) is Err,
    ensures
        page_spec(tv) == page_spec(tv.subrange(0, n)),
    decreases tv.len() - n,
{
    if n < tv.len() {
        let next = tv.subrange(0, n + 1);
        assert(next.drop_last() == tv.subrange(0, n));
        lemma_page_error_stays(tv, n + 1);
    } else {
        assert(tv.subrange(0, n) == tv);
    }
}

} // verus!

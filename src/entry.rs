//! The cell-pair classifier and the entry builder: one dictionary entry from one group
//! of rows.
use vstd::prelude::*;
use crate::model::{Cell, CellView, Row, RowView, attr_is, cells_view, rows_view};
use crate::text::{joined, join_parts, scrub, scrub_chars, texts_view, trimmed};

verus! {

/// The class of a headword cell; paired with a following cell without a class, it gives
/// the source definition.
pub const HEADWORD_CLASS: &'static str = "FrWrd";
/// The class of a target-gloss cell; the cell before it is its sense cell.
pub const GLOSS_CLASS: &'static str = "ToWrd";
/// The class of a cell holding a source-language example.
pub const SOURCE_EXAMPLE_CLASS: &'static str = "FrEx";
/// The class of a cell holding a target-language example.
pub const TARGET_EXAMPLE_CLASS: &'static str = "ToEx";
/// The part of speech given to a definition whose markup names none.
pub const NO_POS: &'static str = "no_POS";
/// The separator between the text pieces of one element.
pub const TEXT_SEPARATOR: &'static str = " ";

/// A definition text with its part of speech.
#[derive(Clone, Debug)]
pub struct DefinitionAndPOS {
    pub text: String,
    pub part_of_speech: String,
}

/// One dictionary entry (one sense of a headword).
#[derive(Clone, Debug)]
pub struct DefinitionEntry {
    /// The identifier attribute of the entry's first row.
    pub id: String,
    /// The headword.
    pub word: String,
    /// The source-language definition with its part of speech.
    pub spanish_definition: DefinitionAndPOS,
    /// The target-language glosses, in document order.
    pub english_definitions: Vec<DefinitionAndPOS>,
    /// The source-language examples (cells of class `FrEx`), in document order.
    pub spanish_examples: Vec<String>,
    /// The target-language examples (cells of class `ToEx`), in document order.
    pub english_examples: Vec<String>,
}

/// Why one group of rows gives no entry.
#[derive(Clone, Copy, Debug, PartialEq, Eq, Structural)]
pub enum EntryError {
    /// The group has no first row, or its first row has no identifier attribute.
    MissingId,
    /// The first row does not hold exactly one headword element with text.
    MissingHeadword,
    /// The group does not hold exactly one headword/definition cell pair.
    AmbiguousSourceDefinition,
    /// The one headword/definition cell pair lacks the text it must hold.
    MalformedSourceDefinition,
}

pub ghost struct TaggedView {
    pub text: Seq<char>,
    pub pos: Seq<char>,
}

pub ghost struct EntryView {
    pub id: Seq<char>,
    pub word: Seq<char>,
    pub source: TaggedView,
    pub targets: Seq<TaggedView>,
    pub source_examples: Seq<Seq<char>>,
    pub target_examples: Seq<Seq<char>>,
}

impl View for DefinitionAndPOS {
    type V = TaggedView;

    open spec fn view(&self) -> TaggedView {
        TaggedView { text: self.text@, pos: self.part_of_speech@ }
    }
}

pub open spec fn tagged_view(v: Seq<DefinitionAndPOS>) -> Seq<TaggedView> {
    v.map_values(|d: DefinitionAndPOS| d@)
}

impl View for DefinitionEntry {
    type V = EntryView;

    open spec fn view(&self) -> EntryView {
        EntryView {
            id: self.id@,
            word: self.word@,
            source: self.spanish_definition@,
            targets: tagged_view(self.english_definitions@),
            source_examples: texts_view(self.spanish_examples@),
            target_examples: texts_view(self.english_examples@),
        }
    }
}

/// The part of speech of a cell: the text of its one part-of-speech element, or the
/// fallback when it holds none or several.
pub open spec fn pos_of(c: CellView) -> Seq<char> {
    if c.pos_tags.len() == 1 {
        joined(c.pos_tags[0], TEXT_SEPARATOR@)
    } else {
        NO_POS@
    }
}

/// The examples among the first `n` cells whose class is `class`: each cell's text
/// pieces joined.
pub open spec fn cell_examples(cells: Seq<CellView>, class: Seq<char>, n: int) -> Seq<Seq<char>>
    decreases n,
{
    if n <= 0 {
        Seq::empty()
    } else {
        let prev = cell_examples(cells, class, n - 1);
        if cells[n - 1].class == Some(class) {
            prev.push(joined(cells[n - 1].texts, TEXT_SEPARATOR@))
        } else {
            prev
        }
    }
}

/// The examples of class `class` in the first `k` rows of a group, in document order.
pub open spec fn group_examples(rows: Seq<RowView>, group: Seq<usize>, class: Seq<char>, k: int) -> Seq<Seq<char>>
    decreases k,
{
    if k <= 0 {
        Seq::empty()
    } else {
        let cells = rows[group[k - 1] as int].cells;
        group_examples(rows, group, class, k - 1) + cell_examples(cells, class, cells.len() as int)
    }
}

/// The target gloss of a cell pair whose second cell is a gloss cell: the text of the
/// first cell's one sense element and a space, if it has exactly one, then the first text
/// piece of the gloss cell; and the gloss cell's part of speech. None when the gloss cell
/// holds no text.
pub open spec fn target_def(td1: CellView, td2: CellView) -> Option<TaggedView> {
    if td2.texts.len() == 0 {
        None
    } else {
        let prefix = if td1.senses.len() == 1 {
            joined(td1.senses[0], TEXT_SEPARATOR@) + TEXT_SEPARATOR@
        } else {
            Seq::<char>::empty()
        };
        Some(TaggedView { text: prefix + td2.texts[0], pos: pos_of(td2) })
    }
}

/// The glosses of the pairs among the first `n` cells of a row.
pub open spec fn row_targets(cells: Seq<CellView>, n: int) -> Seq<TaggedView>
    decreases n,
{
    if n < 2 {
        Seq::empty()
    } else {
        let prev = row_targets(cells, n - 1);
        if cells[n - 1].class == Some(GLOSS_CLASS@) {
            match target_def(cells[n - 2], cells[n - 1]) {
                Some(t) => prev.push(t),
                None => prev,
            }
        } else {
            prev
        }
    }
}

/// The glosses of the first `k` rows of a group, in document order.
pub open spec fn group_targets(rows: Seq<RowView>, group: Seq<usize>, k: int) -> Seq<TaggedView>
    decreases k,
{
    if k <= 0 {
        Seq::empty()
    } else {
        let cells = rows[group[k - 1] as int].cells;
        group_targets(rows, group, k - 1) + row_targets(cells, cells.len() as int)
    }
}

/// A headword cell followed by a cell without a class.
pub open spec fn is_source_pair(td1: CellView, td2: CellView) -> bool {
    td1.class == Some(HEADWORD_CLASS@) && td2.class is None
}

/// The source pairs among the first `n` cells of row `row`, as (row, first cell).
pub open spec fn row_source_pairs(row: usize, cells: Seq<CellView>, n: int) -> Seq<(usize, int)>
    decreases n,
{
    if n < 2 {
        Seq::empty()
    } else {
        let prev = row_source_pairs(row, cells, n - 1);
        if is_source_pair(cells[n - 2], cells[n - 1]) {
            prev.push((row, n - 2))
        } else {
            prev
        }
    }
}

/// The source pairs of the first `k` rows of a group, in document order.
pub open spec fn group_source_pairs(rows: Seq<RowView>, group: Seq<usize>, k: int) -> Seq<(usize, int)>
    decreases k,
{
    if k <= 0 {
        Seq::empty()
    } else {
        let cells = rows[group[k - 1] as int].cells;
        group_source_pairs(rows, group, k - 1) + row_source_pairs(group[k - 1], cells, cells.len() as int)
    }
}

/// The source definition of a source pair: the headword cell must hold exactly one
/// `strong` element with text, and the definition cell a first text piece, which is
/// trimmed and scrubbed; the part of speech is the headword cell's.
pub open spec fn source_def(td1: CellView, td2: CellView) -> Option<TaggedView> {
    if td1.strongs.len() != 1 || td1.strongs[0].len() == 0 || td2.texts.len() == 0 {
        None
    } else {
        Some(TaggedView { text: scrub_chars(trimmed(td2.texts[0])), pos: pos_of(td1) })
    }
}

/// The headword of a row: the first text piece of its one headword element.
pub open spec fn headword_of(r: RowView) -> Option<Seq<char>> {
    if r.head_words.len() == 1 && r.head_words[0].len() > 0 {
        Some(r.head_words[0][0])
    } else {
        None
    }
}

/// The entry that a group of rows gives, or why it gives none. The identifier is checked
/// first, then the headword, then the source definition; glosses and examples never fail.
pub open spec fn entry_spec(rows: Seq<RowView>, group: Seq<usize>) -> Result<EntryView, EntryError> {
    if group.len() == 0 || rows[group[0] as int].id is None {
        Err(EntryError::MissingId)
    } else if headword_of(rows[group[0] as int]) is None {
        Err(EntryError::MissingHeadword)
    } else {
        let pairs = group_source_pairs(rows, group, group.len() as int);
        if pairs.len() != 1 {
            Err(EntryError::AmbiguousSourceDefinition)
        } else {
            let cells = rows[pairs[0].0 as int].cells;
            match source_def(cells[pairs[0].1], cells[pairs[0].1 + 1]) {
                None => Err(EntryError::MalformedSourceDefinition),
                Some(source) => Ok(EntryView {
                    id: rows[group[0] as int].id->Some_0,
                    word: headword_of(rows[group[0] as int])->Some_0,
                    source,
                    targets: group_targets(rows, group, group.len() as int),
                    source_examples: group_examples(rows, group, SOURCE_EXAMPLE_CLASS@, group.len() as int),
                    target_examples: group_examples(rows, group, TARGET_EXAMPLE_CLASS@, group.len() as int),
                }),
            }
        }
    }
}

/// A group whose first row has its identifier and headword, but which holds two or more
/// headword/definition cell pairs, gives no entry: its source definition is ambiguous.
pub proof fn lemma_two_source_pairs_ambiguous(rows: Seq<RowView>, group: Seq<usize>)
    requires
        group.len() > 0,
        rows[group[0] as int].id is Some,
        headword_of(rows[group[0] as int]) is Some,
        group_source_pairs(rows, group, group.len() as int).len() >= 2,
    ensures
        entry_spec(rows, group) == Err::<EntryView, EntryError>(EntryError::AmbiguousSourceDefinition),
{
}

pub open spec fn valid_group(rows: Seq<Row>, group: Seq<usize>) -> bool {
    forall|i: int| 0 <= i < group.len() ==> group[i] < rows.len()
}

fn pos_of_cell(c: &Cell) -> (r: String)
    ensures
        r@ == pos_of(c@),
{
    if c.pos_tags.len() == 1 {
        join_parts(&c.pos_tags[0], TEXT_SEPARATOR)
    } else {
        String::from_str(NO_POS)
    }
}

fn source_definition(td1: &Cell, td2: &Cell) -> (r: Option<DefinitionAndPOS>)
    ensures
        match r {
            Some(d) => source_def(td1@, td2@) == Some(d@),
            None => source_def(td1@, td2@) is None,
        },
{
    if td1.strongs.len() != 1 || td1.strongs[0].len() == 0 || td2.texts.len() == 0 {
        None
    } else {
        let text = scrub(td2.texts[0].as_str());
        let part_of_speech = pos_of_cell(td1);
        Some(DefinitionAndPOS { text, part_of_speech })
    }
}

fn target_definition(td1: &Cell, td2: &Cell) -> (r: Option<DefinitionAndPOS>)
    ensures
        match r {
            Some(d) => target_def(td1@, td2@) == Some(d@),
            None => target_def(td1@, td2@) is None,
        },
{
    if td2.texts.len() == 0 {
        return None;
    }
    let mut text = String::new();
    if td1.senses.len() == 1 {
        text = join_parts(&td1.senses[0], TEXT_SEPARATOR);
        text.append(TEXT_SEPARATOR);
    }
    text.append(td2.texts[0].as_str());
    let part_of_speech = pos_of_cell(td2);
    Some(DefinitionAndPOS { text, part_of_speech })
}

/// The examples of class `class` in a group's rows.
fn collect_examples(rows: &Vec<Row>, group: &Vec<usize>, class: &str) -> (r: Vec<String>)
    requires
        valid_group(rows@, group@),
    ensures
        texts_view(r@) == group_examples(rows_view(rows@), group@, class@, group@.len() as int),
{
    let ghost rv = rows_view(rows@);
    let mut out: Vec<String> = Vec::new();
    let mut k: usize = 0;
    while k < group.len()
        invariant
            k <= group@.len(),
            valid_group(rows@, group@),
            rv == rows_view(rows@),
            texts_view(out@) == group_examples(rv, group@, class@, k as int),
        decreases group@.len() - k,
    {
        let row = &rows[group[k]];
        let ghost cv = rv[group@[k as int] as int].cells;
        assert(cv == cells_view(row.cells@));
        let mut j: usize = 0;
        while j < row.cells.len()
            invariant
                j <= row.cells@.len(),
                cv == cells_view(row.cells@),
                texts_view(out@) == group_examples(rv, group@, class@, k as int) + cell_examples(cv, class@, j as int),
            decreases row.cells@.len() - j,
        {
            let c = &row.cells[j];
            let ghost before = texts_view(out@);
            if attr_is(&c.class, class) {
                out.push(join_parts(&c.texts, TEXT_SEPARATOR));
                assert(texts_view(out@) =~= before.push(out@.last()@));
            }
            assert(group_examples(rv, group@, class@, k as int) + cell_examples(cv, class@, j + 1) =~= if c@.class == Some(class@) {
                (group_examples(rv, group@, class@, k as int) + cell_examples(cv, class@, j as int)).push(joined(c@.texts, TEXT_SEPARATOR@))
            } else {
                group_examples(rv, group@, class@, k as int) + cell_examples(cv, class@, j as int)
            });
            j = j + 1;
        }
        k = k + 1;
    }
    out
}

/// The glosses of one row's cell pairs.
fn row_glosses(cells: &Vec<Cell>) -> (r: Vec<DefinitionAndPOS>)
    ensures
        tagged_view(r@) == row_targets(cells_view(cells@), cells@.len() as int),
{
    let ghost cv = cells_view(cells@);
    let mut out: Vec<DefinitionAndPOS> = Vec::new();
    let mut j: usize = 1;
    while j < cells.len()
        invariant
            1 <= j,
            j <= cells@.len() || j == 1,
            cv == cells_view(cells@),
            tagged_view(out@) == row_targets(cv, j as int),
        decreases cells@.len() - j,
    {
        let ghost before = tagged_view(out@);
        if attr_is(&cells[j].class, GLOSS_CLASS) {
            match target_definition(&cells[j - 1], &cells[j]) {
                Some(d) => {
                    out.push(d);
                    assert(tagged_view(out@) =~= before.push(out@.last()@));
                },
                None => {},
            }
        }
        j = j + 1;
    }
    assert(row_targets(cv, 0) == row_targets(cv, 1));
    out
}

/// The glosses of a group's rows, in document order.
fn collect_glosses(rows: &Vec<Row>, group: &Vec<usize>) -> (r: Vec<DefinitionAndPOS>)
    requires
        valid_group(rows@, group@),
    ensures
        tagged_view(r@) == group_targets(rows_view(rows@), group@, group@.len() as int),
{
    let ghost rv = rows_view(rows@);
    let mut out: Vec<DefinitionAndPOS> = Vec::new();
    let mut k: usize = 0;
    while k < group.len()
        invariant
            k <= group@.len(),
            valid_group(rows@, group@),
            rv == rows_view(rows@),
            tagged_view(out@) == group_targets(rv, group@, k as int),
        decreases group@.len() - k,
    {
        let row = &rows[group[k]];
        let ghost before = tagged_view(out@);
        let mut more = row_glosses(&row.cells);
        let ghost added = tagged_view(more@);
        out.append(&mut more);
        assert(tagged_view(out@) =~= before + added);
        k = k + 1;
    }
    out
}

/// The one source pair of a group, as (row, first cell), if it has exactly one.
fn single_source_pair(rows: &Vec<Row>, group: &Vec<usize>) -> (r: Option<(usize, usize)>)
    requires
        valid_group(rows@, group@),
    ensures
        ({
            let pairs = group_source_pairs(rows_view(rows@), group@, group@.len() as int);
            match r {
                Some(p) => pairs.len() == 1 && pairs[0] == (p.0, p.1 as int) && p.0 < rows@.len()
                    && p.1 + 1 < rows@[p.0 as int].cells@.len(),
                None => pairs.len() != 1,
            }
        }),
{
    let ghost rv = rows_view(rows@);
    let mut count: usize = 0;
    let mut found: (usize, usize) = (0, 0);
    let mut k: usize = 0;
    while k < group.len()
        invariant
            k <= group@.len(),
            valid_group(rows@, group@),
            rv == rows_view(rows@),
            ({
                let pairs = group_source_pairs(rv, group@, k as int);
                &&& count == if pairs.len() >= 2 { 2 } else { pairs.len() }
                &&& count >= 1 ==> pairs[0] == (found.0, found.1 as int) && found.0 < rows@.len()
                    && found.1 + 1 < rows@[found.0 as int].cells@.len()
            }),
        decreases group@.len() - k,
    {
        let r = group[k];
        let row = &rows[r];
        let ghost cv = rv[r as int].cells;
        assert(cv == cells_view(row.cells@));
        let ghost done = group_source_pairs(rv, group@, k as int);
        let mut j: usize = 1;
        while j < row.cells.len()
            invariant
                1 <= j,
                j <= row.cells@.len() || j == 1,
                r < rows@.len(),
                row == rows@[r as int],
                cv == cells_view(row.cells@),
                ({
                    let pairs = done + row_source_pairs(r, cv, j as int);
                    &&& count == if pairs.len() >= 2 { 2 } else { pairs.len() }
                    &&& count >= 1 ==> pairs[0] == (found.0, found.1 as int) && found.0 < rows@.len()
                        && found.1 + 1 < rows@[found.0 as int].cells@.len()
                }),
            decreases row.cells@.len() - j,
        {
            let ghost before = done + row_source_pairs(r, cv, j as int);
            if attr_is(&row.cells[j - 1].class, HEADWORD_CLASS) && row.cells[j].class.is_none() {
                if count == 0 {
                    found = (r, j - 1);
                }
                if count < 2 {
                    count = count + 1;
                }
                assert(done + row_source_pairs(r, cv, j + 1) =~= before.push((r, j - 1)));
            } else {
                assert(done + row_source_pairs(r, cv, j + 1) =~= before);
            }
            j = j + 1;
        }
        assert(row_source_pairs(r, cv, 0) == row_source_pairs(r, cv, 1));
        assert(group_source_pairs(rv, group@, k + 1) == done + row_source_pairs(r, cv, cv.len() as int));
        k = k + 1;
    }
    if count == 1 {
        Some(found)
    } else {
        None
    }
}

/// Builds the entry of one group of rows (`group` lists indices into `rows`). The
/// identifier comes from the first row, the headword from the first row's one headword
/// element, and the source definition from the group's one headword/definition cell
/// pair, scrubbed; glosses and examples are gathered over the whole group, and a gloss
/// pair without text is left out.
pub fn extract_table_entry(rows: &Vec<Row>, group: &Vec<usize>) -> (r: Result<DefinitionEntry, EntryError>)
    requires
        valid_group(rows@, group@),
    ensures
        match r {
            Ok(e) => entry_spec(rows_view(rows@), group@) == Ok::<EntryView, EntryError>(e@),
            Err(x) => entry_spec(rows_view(rows@), group@) == Err::<EntryView, EntryError>(x),
        },
{
    let ghost rv = rows_view(rows@);
    if group.len() == 0 {
        return Err(EntryError::MissingId);
    }
    let first = &rows[group[0]];
    let id = match &first.id {
        None => {
            return Err(EntryError::MissingId);
        },
        Some(s) => s.clone(),
    };
    if first.head_words.len() != 1 || first.head_words[0].len() == 0 {
        return Err(EntryError::MissingHeadword);
    }
    let word = first.head_words[0][0].clone();
    let pair = single_source_pair(rows, group);
    let (r, j) = match pair {
        None => {
            return Err(EntryError::AmbiguousSourceDefinition);
        },
        Some(p) => p,
    };
    let n = rows[r].cells.len();
    assert(j + 1 < n);
    let next = j + 1;
    let source = match source_definition(&rows[r].cells[j], &rows[r].cells[next]) {
        None => {
            return Err(EntryError::MalformedSourceDefinition);
        },
        Some(d) => d,
    };
    let english_definitions = collect_glosses(rows, group);
    let spanish_examples = collect_examples(rows, group, SOURCE_EXAMPLE_CLASS);
    let english_examples = collect_examples(rows, group, TARGET_EXAMPLE_CLASS);
    Ok(DefinitionEntry { id, word, spanish_definition: source, english_definitions, spanish_examples, english_examples })
}

} // verus!

use langbuddy::entry::{extract_table_entry, EntryError};
use langbuddy::model::{Cell, Row};

fn s(t: &str) -> String {
    t.to_string()
}

fn cell(class: Option<&str>, texts: &[&str]) -> Cell {
    Cell {
        class: class.map(s),
        texts: texts.iter().map(|t| s(t)).collect(),
        strongs: vec![],
        pos_tags: vec![],
        senses: vec![],
    }
}

fn head_cell(word: &str, pos: Option<&str>) -> Cell {
    let mut c = cell(Some("FrWrd"), &[word]);
    c.strongs = vec![vec![s(word)]];
    if let Some(p) = pos {
        c.pos_tags = vec![vec![s(p)]];
    }
    c
}

fn entry_row(class: &str, id: Option<&str>, head: Option<&str>, cells: Vec<Cell>) -> Row {
    Row {
        class: Some(s(class)),
        id: id.map(s),
        head_words: head.map(|h| vec![vec![s(h)]]).unwrap_or_default(),
        cells,
    }
}

fn full_group() -> Vec<Row> {
    let mut gloss = cell(Some("ToWrd"), &["happen ", "vi"]);
    gloss.pos_tags = vec![vec![s("vi")]];
    let mut sense = cell(None, &["(ocurrir) extra"]);
    sense.senses = vec![vec![s("occur,"), s("take place")]];
    vec![
        entry_row(
            "even",
            Some("esen:1"),
            Some("pasar"),
            vec![head_cell("pasar", Some("vi")), sense, gloss],
        ),
        entry_row(
            "even",
            None,
            None,
            vec![cell(None, &[" "]), cell(Some("FrEx"), &["¿Qué ", "pasó", "?"])],
        ),
        entry_row("even", None, None, vec![cell(None, &[" "]), cell(Some("ToEx"), &["What happened?"])]),
        entry_row("even", None, None, vec![cell(Some("FrWrd"), &["x"]), cell(Some("ToWrd"), &["go by"])]),
    ]
}

#[test]
fn entry_from_a_full_group() {
    let rows = full_group();
    let e = extract_table_entry(&rows, &vec![0, 1, 2, 3]).unwrap();
    assert_eq!(e.id, "esen:1");
    assert_eq!(e.word, "pasar");
    assert_eq!(e.spanish_definition.text, "ocurrir");
    assert_eq!(e.spanish_definition.part_of_speech, "vi");
    assert_eq!(e.english_definitions.len(), 2);
    assert_eq!(e.english_definitions[0].text, "occur, take place happen ");
    assert_eq!(e.english_definitions[0].part_of_speech, "vi");
    assert_eq!(e.english_definitions[1].text, "go by");
    assert_eq!(e.english_definitions[1].part_of_speech, "no_POS");
    assert_eq!(e.spanish_examples, vec![s("¿Qué  pasó ?")]);
    assert_eq!(e.english_examples, vec![s("What happened?")]);
}

#[test]
fn example_classes_map_to_fixed_languages() {
    let rows = full_group();
    let e = extract_table_entry(&rows, &vec![0, 1, 2]).unwrap();
    assert!(e.spanish_examples[0].starts_with("¿Qué"));
    assert_eq!(e.english_examples[0], "What happened?");
}

#[test]
fn two_source_pairs_are_ambiguous() {
    let rows = vec![
        entry_row("odd", Some("esen:2"), Some("pasar"), vec![head_cell("pasar", None), cell(None, &["(ir) x"])]),
        entry_row("odd", None, None, vec![head_cell("pasarse", None), cell(None, &["(excederse) y"])]),
    ];
    assert_eq!(extract_table_entry(&rows, &vec![0, 1]).unwrap_err(), EntryError::AmbiguousSourceDefinition);
}

#[test]
fn no_source_pair_is_ambiguous() {
    let rows = vec![entry_row(
        "odd",
        Some("esen:3"),
        Some("pasar"),
        vec![head_cell("pasar", None), cell(Some("ToWrd"), &["pass"])],
    )];
    assert_eq!(extract_table_entry(&rows, &vec![0]).unwrap_err(), EntryError::AmbiguousSourceDefinition);
}

#[test]
fn missing_id_fails_first() {
    let mut rows = full_group();
    rows[0].id = None;
    rows[0].head_words = vec![];
    assert_eq!(extract_table_entry(&rows, &vec![0]).unwrap_err(), EntryError::MissingId);
    assert_eq!(extract_table_entry(&rows, &vec![]).unwrap_err(), EntryError::MissingId);
}

#[test]
fn missing_or_repeated_headword() {
    let mut rows = full_group();
    rows[0].head_words = vec![];
    assert_eq!(extract_table_entry(&rows, &vec![0]).unwrap_err(), EntryError::MissingHeadword);
    rows[0].head_words = vec![vec![s("a")], vec![s("b")]];
    assert_eq!(extract_table_entry(&rows, &vec![0]).unwrap_err(), EntryError::MissingHeadword);
    rows[0].head_words = vec![vec![]];
    assert_eq!(extract_table_entry(&rows, &vec![0]).unwrap_err(), EntryError::MissingHeadword);
}

#[test]
fn source_pair_without_definition_text_is_malformed() {
    let mut rows = full_group();
    rows[0].cells[1].texts = vec![];
    assert_eq!(extract_table_entry(&rows, &vec![0]).unwrap_err(), EntryError::MalformedSourceDefinition);
}

#[test]
fn gloss_without_text_is_left_out() {
    let mut rows = full_group();
    rows[0].cells[2].texts = vec![];
    let e = extract_table_entry(&rows, &vec![0]).unwrap();
    assert!(e.english_definitions.is_empty());
}

use langbuddy::dom::scrape_page_html;
use langbuddy::entry::EntryError;
use langbuddy::model::{Cell, Row, Table};
use langbuddy::page::{scrape_page_section, scrape_tables, split_table_into_entries, PageSection, ScrapeError};

fn table_html(title: &str, body: &str) -> String {
    format!(
        "<table class=\"WRD clickTranslate noTapHighlight\">\
         <tr class=\"wrtopsection\"><td colspan=\"3\" title=\"{}\">{}</td></tr>\
         <tr class=\"langHeader\"><td class=\"FrWrd\">Spanish</td><td></td><td class=\"ToWrd\">English</td></tr>\
         {}</table>",
        title, title, body
    )
}

const TWO_ENTRIES: &str = "\
<tr class=\"even\" id=\"esen:1\"><td class=\"FrWrd\"><strong>pasar</strong> <em class=\"POS2\">vi</em></td>\
<td>(ocurrir) extra</td><td class=\"ToWrd\">happen <em class=\"POS2\">vi</em></td></tr>\
<tr class=\"even\"><td>&nbsp;</td><td class=\"FrEx\">Qué pasó</td></tr>\
<tr class=\"even\"><td>&nbsp;</td><td class=\"ToEx\">What happened</td></tr>\
<tr class=\"odd\" id=\"esen:2\"><td class=\"FrWrd\"><strong>pasar</strong></td>\
<td>(ir) más</td><td class=\"ToWrd\">pass</td></tr>";

#[test]
fn principal_translations_end_to_end() {
    let html = format!("<div>{}</div>", table_html("Principal Translations", TWO_ENTRIES));
    let page = scrape_page_html(html).unwrap();
    assert_eq!(page.principal_translations.len(), 2);
    assert!(page.additional_translations.is_empty());
    assert!(page.compound_forms.is_empty());
    let first = &page.principal_translations[0];
    assert_eq!(first.id, "esen:1");
    assert_eq!(first.word, "pasar");
    assert_eq!(first.spanish_definition.text, "ocurrir");
    assert_eq!(first.spanish_definition.part_of_speech, "vi");
    assert_eq!(first.english_definitions.len(), 1);
    assert_eq!(first.english_definitions[0].text, "happen ");
    assert_eq!(first.english_definitions[0].part_of_speech, "vi");
    assert_eq!(first.spanish_examples, vec!["Qué pasó".to_string()]);
    assert_eq!(first.english_examples, vec!["What happened".to_string()]);
    let second = &page.principal_translations[1];
    assert_eq!(second.id, "esen:2");
    assert_eq!(second.word, "pasar");
    assert_eq!(second.spanish_definition.text, "ir");
    assert_eq!(second.spanish_definition.part_of_speech, "no_POS");
    assert_eq!(second.english_definitions[0].text, "pass");
}

#[test]
fn unknown_section_title_is_an_error() {
    let html = table_html("Verb Conjugations", TWO_ENTRIES);
    match scrape_page_html(html) {
        Err(ScrapeError::UnknownSectionTitle { table, title }) => {
            assert_eq!(table, 0);
            assert_eq!(title, "Verb Conjugations");
        }
        other => panic!("unexpected result: {:?}", other),
    }
}

#[test]
fn page_without_tables_is_empty() {
    let page = scrape_page_html("<p>No translations found.</p>".to_string()).unwrap();
    assert!(page.principal_translations.is_empty());
    assert!(page.additional_translations.is_empty());
    assert!(page.compound_forms.is_empty());
    assert!(page.also_appears_in_spanish.is_empty());
    assert!(page.also_appears_in_english.is_empty());
}

#[test]
fn three_sections_each_land_in_their_field() {
    let html = format!(
        "{}{}{}",
        table_html("Principal Translations", TWO_ENTRIES),
        table_html("Additional Translations", TWO_ENTRIES),
        table_html("Compound Forms", "")
    );
    let page = scrape_page_html(html).unwrap();
    assert_eq!(page.principal_translations.len(), 2);
    assert_eq!(page.additional_translations.len(), 2);
    assert!(page.compound_forms.is_empty());
}

#[test]
fn table_without_header_is_an_error() {
    let html = format!("<table class=\"WRD clickTranslate noTapHighlight\">{}</table>", TWO_ENTRIES);
    assert!(matches!(scrape_page_html(html), Err(ScrapeError::MissingSectionHeader { table: 0 })));
}

#[test]
fn header_without_title_is_an_error() {
    let html = "<table class=\"WRD clickTranslate noTapHighlight\"><tr class=\"wrtopsection\"><td>x</td></tr></table>";
    assert!(matches!(scrape_page_html(html.to_string()), Err(ScrapeError::MissingSectionTitle { table: 0 })));
}

#[test]
fn bad_entry_names_section_and_index() {
    let body = format!("{}<tr class=\"even\"><td class=\"FrWrd\"><strong>x</strong></td><td>(y)</td></tr>", TWO_ENTRIES);
    let html = format!("{}{}", table_html("Principal Translations", ""), table_html("Compound Forms", &body));
    match scrape_page_html(html) {
        Err(ScrapeError::Entry { section, entry, error }) => {
            assert_eq!(section, PageSection::CompoundForms);
            assert_eq!(entry, 2);
            assert_eq!(error, EntryError::MissingId);
        }
        other => panic!("unexpected result: {:?}", other),
    }
}

fn model_row(class: &str, id: &str) -> Row {
    let mut head = Cell {
        class: Some("FrWrd".to_string()),
        texts: vec![id.to_string()],
        strongs: vec![vec![id.to_string()]],
        pos_tags: vec![],
        senses: vec![],
    };
    head.texts = vec![id.to_string()];
    let def = Cell { class: None, texts: vec!["(d) e".to_string()], strongs: vec![], pos_tags: vec![], senses: vec![] };
    Row {
        class: Some(class.to_string()),
        id: Some(id.to_string()),
        head_words: vec![vec![id.to_string()]],
        cells: vec![head, def],
    }
}

fn model_table(title: &str, rows: Vec<Row>) -> Table {
    Table { headers: vec![Some(title.to_string())], rows }
}

#[test]
fn later_table_of_a_section_replaces_earlier() {
    let tables = vec![
        model_table("Principal Translations", vec![model_row("odd", "a"), model_row("even", "b")]),
        model_table("Principal Translations", vec![model_row("odd", "c")]),
    ];
    let page = scrape_tables(&tables).unwrap();
    assert_eq!(page.principal_translations.len(), 1);
    assert_eq!(page.principal_translations[0].id, "c");
    assert_eq!(page.principal_translations[0].spanish_definition.text, "d");
}

#[test]
fn no_tables_give_an_empty_page() {
    let page = scrape_tables(&vec![]).unwrap();
    assert!(page.principal_translations.is_empty());
    assert!(page.additional_translations.is_empty());
    assert!(page.compound_forms.is_empty());
}

#[test]
fn structural_rows_are_left_out_before_grouping() {
    let mut header = model_row("wrtopsection", "h");
    header.cells.clear();
    let mut continuation = model_row("odd", "c");
    continuation.cells.clear();
    let table = model_table("Compound Forms", vec![header, model_row("even", "a"), model_row("odd", "b"), continuation]);
    assert_eq!(split_table_into_entries(&table), vec![vec![1], vec![2, 3]]);
    let (section, entries) = scrape_page_section(&table, 4).unwrap();
    assert_eq!(section, PageSection::CompoundForms);
    assert_eq!(entries.len(), 2);
    assert_eq!(entries[1].id, "b");
}

#[test]
fn table_without_entry_rows_has_no_entries() {
    let table = model_table("Additional Translations", vec![]);
    assert_eq!(split_table_into_entries(&table), vec![Vec::<usize>::new()]);
    let (section, entries) = scrape_page_section(&table, 0).unwrap();
    assert_eq!(section, PageSection::AdditionalTranslations);
    assert!(entries.is_empty());
}

#[test]
fn two_header_cells_are_an_error() {
    let mut table = model_table("Compound Forms", vec![]);
    table.headers.push(Some("Compound Forms".to_string()));
    assert!(matches!(scrape_page_section(&table, 3), Err(ScrapeError::MissingSectionHeader { table: 3 })));
}

use langbuddy::grouping::group_rows;
use langbuddy::model::{Cell, Row};

fn row(class: Option<&str>) -> Row {
    Row {
        class: class.map(|c| c.to_string()),
        id: None,
        head_words: vec![],
        cells: Vec::<Cell>::new(),
    }
}

#[test]
fn alternating_groups_concatenate_to_rows() {
    let rows = vec![
        row(Some("even")),
        row(Some("even")),
        row(Some("odd")),
        row(Some("even")),
        row(Some("even")),
        row(Some("even")),
    ];
    let picks: Vec<usize> = (0..rows.len()).collect();
    let groups = group_rows(&rows, &picks);
    assert_eq!(groups, vec![vec![0, 1], vec![2], vec![3, 4, 5]]);
    let flat: Vec<usize> = groups.concat();
    assert_eq!(flat, picks);
}

#[test]
fn single_row_without_class_is_one_group() {
    let rows = vec![row(None)];
    let groups = group_rows(&rows, &vec![0]);
    assert_eq!(groups, vec![vec![0]]);
}

#[test]
fn no_rows_give_one_empty_group() {
    let rows: Vec<Row> = vec![];
    let groups = group_rows(&rows, &vec![]);
    assert_eq!(groups, vec![Vec::<usize>::new()]);
}

#[test]
fn grouping_follows_the_picked_rows_only() {
    let rows = vec![
        row(Some("wrtopsection")),
        row(Some("odd")),
        row(Some("langHeader")),
        row(Some("odd")),
        row(Some("even")),
    ];
    let groups = group_rows(&rows, &vec![1, 3, 4]);
    assert_eq!(groups, vec![vec![1, 3], vec![4]]);
}

#[test]
fn first_row_sets_the_cursor() {
    let rows = vec![row(Some("odd")), row(None), row(None), row(Some("odd"))];
    let groups = group_rows(&rows, &vec![0, 1, 2, 3]);
    assert_eq!(groups, vec![vec![0], vec![1, 2], vec![3]]);
}

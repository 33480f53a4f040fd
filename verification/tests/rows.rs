use record_query::grouping::{build_pipeline, Stage};
use record_query::rows::{
    flatten_row, flatten_rows, flatten_value, AggregateRow, Element, GroupRow, GroupValue, KeyPart,
    RowError, RowFailure,
};

fn text(s: &str) -> GroupValue {
    GroupValue::Text(String::from(s))
}

fn list(items: &[&str]) -> GroupValue {
    GroupValue::List(items.iter().map(|s| Element::Text(String::from(*s))).collect())
}

fn part(column: &str, value: GroupValue) -> KeyPart {
    KeyPart { column: String::from(column), value }
}

fn pair(column: &str, value: &str) -> (String, String) {
    (String::from(column), String::from(value))
}

#[test]
fn a_string_value_is_presented_as_it_is() {
    assert_eq!(flatten_value(&text("civil")), Some(String::from("civil")));
    assert_eq!(flatten_value(&text("")), Some(String::new()));
}

#[test]
fn a_list_value_is_joined_with_single_spaces() {
    assert_eq!(flatten_value(&list(&["x", "y", "z"])), Some(String::from("x y z")));
    assert_eq!(flatten_value(&list(&["x"])), Some(String::from("x")));
    assert_eq!(flatten_value(&list(&[])), Some(String::new()));
    assert_eq!(flatten_value(&list(&["a b", "c"])), Some(String::from("a b c")));
}

#[test]
fn any_other_value_has_no_presentation() {
    assert_eq!(flatten_value(&GroupValue::Other), None);
    let mixed = GroupValue::List(vec![Element::Text(String::from("x")), Element::Other]);
    assert_eq!(flatten_value(&mixed), None);
}

#[test]
fn a_row_is_flattened_column_by_column() {
    let row = GroupRow {
        key: Some(vec![part("tags", list(&["x", "y"])), part("type", text("civil"))]),
        quantity: Some(2),
    };
    assert_eq!(
        flatten_row(&row),
        Ok(AggregateRow { columns: vec![pair("tags", "x y"), pair("type", "civil")], quantity: 2 })
    );
}

#[test]
fn a_row_with_an_empty_key_is_one_group() {
    let row = GroupRow { key: Some(vec![]), quantity: Some(0) };
    assert_eq!(flatten_row(&row), Ok(AggregateRow { columns: vec![], quantity: 0 }));
}

#[test]
fn a_row_without_a_key_is_an_error() {
    let row = GroupRow { key: None, quantity: Some(2) };
    assert_eq!(flatten_row(&row), Err(RowError::MissingKey));
    let row = GroupRow { key: None, quantity: None };
    assert_eq!(flatten_row(&row), Err(RowError::MissingKey));
}

#[test]
fn a_value_of_unexpected_shape_is_an_error() {
    let row = GroupRow {
        key: Some(vec![
            part("type", text("civil")),
            part("volume", GroupValue::Other),
            part("page", GroupValue::Other),
        ]),
        quantity: Some(2),
    };
    assert_eq!(flatten_row(&row), Err(RowError::BadValue { index: 1 }));
    let row = GroupRow {
        key: Some(vec![part("tags", GroupValue::List(vec![Element::Other]))]),
        quantity: None,
    };
    assert_eq!(flatten_row(&row), Err(RowError::BadValue { index: 0 }));
}

#[test]
fn a_row_without_a_count_is_an_error() {
    let row = GroupRow { key: Some(vec![part("type", text("civil"))]), quantity: None };
    assert_eq!(flatten_row(&row), Err(RowError::MissingQuantity));
}

#[test]
fn a_negative_count_is_an_error() {
    let row = GroupRow { key: Some(vec![part("type", text("civil"))]), quantity: Some(-1) };
    assert_eq!(flatten_row(&row), Err(RowError::NegativeQuantity));
    let row = GroupRow { key: Some(vec![]), quantity: Some(i32::MIN) };
    assert_eq!(flatten_row(&row), Err(RowError::NegativeQuantity));
}

#[test]
fn the_largest_count_is_kept() {
    let row = GroupRow { key: Some(vec![]), quantity: Some(i32::MAX) };
    assert_eq!(flatten_row(&row), Ok(AggregateRow { columns: vec![], quantity: 2147483647 }));
}

#[test]
fn rows_are_flattened_in_order() {
    let rows = vec![
        GroupRow { key: Some(vec![part("type", text("civil"))]), quantity: Some(5) },
        GroupRow { key: Some(vec![part("type", text("penal"))]), quantity: Some(3) },
    ];
    assert_eq!(
        flatten_rows(&rows),
        Ok(vec![
            AggregateRow { columns: vec![pair("type", "civil")], quantity: 5 },
            AggregateRow { columns: vec![pair("type", "penal")], quantity: 3 },
        ])
    );
    assert_eq!(flatten_rows(&Vec::new()), Ok(vec![]));
}

#[test]
fn the_first_bad_row_stops_the_flattening() {
    let rows = vec![
        GroupRow { key: Some(vec![part("type", text("civil"))]), quantity: Some(5) },
        GroupRow { key: Some(vec![part("type", GroupValue::Other)]), quantity: Some(3) },
        GroupRow { key: None, quantity: Some(1) },
    ];
    assert_eq!(
        flatten_rows(&rows),
        Err(RowFailure { row: 1, error: RowError::BadValue { index: 0 } })
    );
}

/// A document as far as the grouping test looks at it.
#[derive(Clone)]
struct Record {
    tags: Vec<&'static str>,
    kind: &'static str,
}

/// The value of `column` in `record`, with `tags` already unwound to
/// `tag` where it was.
fn value_of(record: &Record, tag: Option<&'static str>, column: &str) -> GroupValue {
    match column {
        "type" => text(record.kind),
        "tags" => match tag {
            Some(tag) => text(tag),
            None => list(&record.tags),
        },
        other => panic!("no column {}", other),
    }
}

/// Runs `pipeline` over `records` as the store would.
fn aggregate(pipeline: &[Stage], records: &[Record]) -> Vec<GroupRow> {
    let mut items: Vec<(Record, Option<&'static str>)> =
        records.iter().map(|r| (r.clone(), None)).collect();
    let mut groups: Vec<(Vec<KeyPart>, i32)> = Vec::new();
    for stage in pipeline {
        match stage {
            Stage::Unwind { column } => {
                assert_eq!(column, "tags");
                items = items
                    .iter()
                    .flat_map(|(r, _)| r.tags.iter().map(move |t| (r.clone(), Some(*t))))
                    .collect();
            }
            Stage::GroupCount { keys } => {
                for (record, tag) in &items {
                    let key: Vec<KeyPart> =
                        keys.iter().map(|k| part(k, value_of(record, *tag, k))).collect();
                    match groups.iter_mut().find(|(k, _)| *k == key) {
                        Some(group) => group.1 += 1,
                        None => groups.push((key, 1)),
                    }
                }
            }
            Stage::SortByCountDescending => groups.sort_by(|a, b| b.1.cmp(&a.1)),
        }
    }
    groups.into_iter().map(|(key, n)| GroupRow { key: Some(key), quantity: Some(n) }).collect()
}

#[test]
fn counting_by_unwound_tags_and_type() {
    let records = vec![
        Record { tags: vec!["x", "y"], kind: "civil" },
        Record { tags: vec!["x"], kind: "civil" },
    ];
    let columns = vec![String::from("unwind:tags"), String::from("type")];
    let rows = aggregate(&build_pipeline(&columns), &records);
    assert_eq!(
        flatten_rows(&rows),
        Ok(vec![
            AggregateRow { columns: vec![pair("tags", "x"), pair("type", "civil")], quantity: 2 },
            AggregateRow { columns: vec![pair("tags", "y"), pair("type", "civil")], quantity: 1 },
        ])
    );
}

#[test]
fn counting_by_tags_that_were_not_unwound() {
    let records = vec![
        Record { tags: vec!["x", "y"], kind: "civil" },
        Record { tags: vec!["x", "y"], kind: "penal" },
        Record { tags: vec!["x"], kind: "civil" },
    ];
    let rows = aggregate(&build_pipeline(&vec![String::from("tags")]), &records);
    assert_eq!(
        flatten_rows(&rows),
        Ok(vec![
            AggregateRow { columns: vec![pair("tags", "x y")], quantity: 2 },
            AggregateRow { columns: vec![pair("tags", "x")], quantity: 1 },
        ])
    );
}

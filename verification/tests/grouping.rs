use record_query::grouping::{build_pipeline, column_path, read_specifiers, GroupSpec, Stage};

fn strings(items: &[&str]) -> Vec<String> {
    items.iter().map(|s| String::from(*s)).collect()
}

#[test]
fn column_path_puts_a_dollar_in_front() {
    assert_eq!(column_path("tags"), "$tags");
    assert_eq!(column_path(""), "$");
}

#[test]
fn read_specifiers_strips_the_marker() {
    let spec = read_specifiers(&strings(&["unwind:tags", "type"]));
    assert_eq!(spec, GroupSpec { unwinds: strings(&["tags"]), keys: strings(&["tags", "type"]) });
}

#[test]
fn read_specifiers_drops_empty_specifiers() {
    let spec = read_specifiers(&strings(&["", "volume", "", "unwind:effects", ""]));
    assert_eq!(spec.unwinds, strings(&["effects"]));
    assert_eq!(spec.keys, strings(&["volume", "effects"]));
    assert_eq!(read_specifiers(&Vec::new()), GroupSpec { unwinds: vec![], keys: vec![] });
}

#[test]
fn read_specifiers_keeps_each_key_once() {
    let spec = read_specifiers(&strings(&["type", "unwind:tags", "type", "tags", "unwind:tags"]));
    assert_eq!(spec.keys, strings(&["type", "tags"]));
    assert_eq!(spec.unwinds, strings(&["tags", "tags"]));
}

#[test]
fn read_specifiers_takes_the_marker_literally() {
    let spec = read_specifiers(&strings(&["Unwind:tags", "unwind", "unwind:", "unwind:unwind:x"]));
    assert_eq!(spec.keys, strings(&["Unwind:tags", "unwind", "", "unwind:x"]));
    assert_eq!(spec.unwinds, strings(&["", "unwind:x"]));
}

#[test]
fn pipeline_unwinds_then_groups_then_sorts() {
    let pipeline = build_pipeline(&strings(&["unwind:tags", "type"]));
    assert_eq!(
        pipeline,
        vec![
            Stage::Unwind { column: String::from("tags") },
            Stage::GroupCount { keys: strings(&["tags", "type"]) },
            Stage::SortByCountDescending,
        ]
    );
}

#[test]
fn pipeline_unwinds_in_the_order_listed() {
    let pipeline = build_pipeline(&strings(&["unwind:effects", "volume", "", "unwind:tags"]));
    assert_eq!(
        pipeline,
        vec![
            Stage::Unwind { column: String::from("effects") },
            Stage::Unwind { column: String::from("tags") },
            Stage::GroupCount { keys: strings(&["effects", "volume", "tags"]) },
            Stage::SortByCountDescending,
        ]
    );
}

#[test]
fn pipeline_without_columns_counts_everything_as_one_group() {
    assert_eq!(
        build_pipeline(&Vec::new()),
        vec![Stage::GroupCount { keys: vec![] }, Stage::SortByCountDescending]
    );
}

use record_query::document::{Document, Value};
use record_query::records::{encode_save, encode_star, encode_tag_lookup, Record};

fn text(s: &str) -> Value {
    Value::Text(String::from(s))
}

fn document(entries: Vec<(&str, Value)>) -> Document {
    entries.into_iter().map(|(k, v)| (String::from(k), v)).collect()
}

fn doc(entries: Vec<(&str, Value)>) -> Value {
    Value::Doc(document(entries))
}

fn blank() -> Record {
    Record {
        tsu: None,
        tsa: None,
        kind: None,
        volume: None,
        page: None,
        cause: None,
        tags: None,
        effects: None,
        starred: None,
    }
}

fn full() -> Record {
    Record {
        tsu: Some(String::from("u")),
        tsa: Some(String::from("a")),
        kind: Some(String::from("civil")),
        volume: Some(String::from("2")),
        page: Some(String::from("10")),
        cause: Some(String::from("c")),
        tags: Some(vec![String::from("x"), String::from("y")]),
        effects: Some(vec![String::from("e")]),
        starred: Some(true),
    }
}

#[test]
fn a_new_record_is_stamped_as_created() {
    assert_eq!(encode_save(false, 1700000000, &blank()), document(vec![("created", Value::Int(1700000000))]));
}

#[test]
fn a_new_record_holds_the_fields_given() {
    assert_eq!(
        encode_save(false, 5, &full()),
        document(vec![
            ("created", Value::Int(5)),
            ("tsu", text("u")),
            ("tsa", text("a")),
            ("type", text("civil")),
            ("volume", text("2")),
            ("page", text("10")),
            ("cause", text("c")),
            ("tags", Value::List(vec![text("x"), text("y")])),
            ("effects", Value::List(vec![text("e")])),
            ("starred", Value::Flag(true)),
        ])
    );
}

#[test]
fn a_new_record_leaves_out_empty_lists() {
    let record = Record { tags: Some(vec![]), starred: Some(false), ..blank() };
    assert_eq!(
        encode_save(false, 5, &record),
        document(vec![("created", Value::Int(5)), ("starred", Value::Flag(false))])
    );
}

#[test]
fn an_update_sets_what_is_given_and_removes_the_rest() {
    let record = Record {
        kind: Some(String::from("civil")),
        tags: Some(vec![String::from("x")]),
        effects: Some(vec![]),
        ..blank()
    };
    assert_eq!(
        encode_save(true, 9, &record),
        document(vec![
            (
                "$set",
                doc(vec![
                    ("updated", Value::Int(9)),
                    ("type", text("civil")),
                    ("tags", Value::List(vec![text("x")])),
                ])
            ),
            (
                "$unset",
                doc(vec![
                    ("tsu", text("")),
                    ("tsa", text("")),
                    ("volume", text("")),
                    ("page", text("")),
                    ("cause", text("")),
                    ("effects", text("")),
                ])
            ),
        ])
    );
}

#[test]
fn an_update_of_every_field_removes_nothing() {
    let doc = encode_save(true, 9, &full());
    assert_eq!(doc.len(), 1);
    assert_eq!(doc[0].0, "$set");
}

#[test]
fn an_update_never_removes_the_star() {
    let doc = encode_save(true, 9, &blank());
    assert_eq!(doc[0], (String::from("$set"), self::doc(vec![("updated", Value::Int(9))])));
    match &doc[1].1 {
        Value::Doc(unset) => {
            let names: Vec<&str> = unset.iter().map(|(k, _)| k.as_str()).collect();
            assert_eq!(names, vec!["tsu", "tsa", "type", "volume", "page", "cause", "tags", "effects"]);
        }
        other => panic!("unexpected {:?}", other),
    }
}

#[test]
fn seconds_past_the_32_bit_range_are_kept_as_64_bit() {
    assert_eq!(encode_save(false, 2147483647, &blank()), document(vec![("created", Value::Int(2147483647))]));
    assert_eq!(encode_save(false, 2147483648, &blank()), document(vec![("created", Value::Long(2147483648))]));
    assert_eq!(encode_save(false, u32::MAX, &blank()), document(vec![("created", Value::Long(4294967295))]));
}

#[test]
fn starring_sets_the_flag_and_unstarring_removes_it() {
    assert_eq!(
        encode_star(false),
        (document(vec![("$set", doc(vec![("starred", Value::Flag(true))]))]), true)
    );
    assert_eq!(
        encode_star(true),
        (document(vec![("$unset", doc(vec![("starred", Value::Flag(false))]))]), false)
    );
}

#[test]
fn a_tag_lookup_matches_the_tag_exactly() {
    assert_eq!(encode_tag_lookup("a.b"), document(vec![("tags", text("a.b"))]));
}

#[test]
fn a_save_names_each_field_once() {
    for updating in [false, true] {
        for record in [blank(), full()] {
            let doc = encode_save(updating, 1, &record);
            let mut seen: Vec<&str> = vec![];
            let fields = match (&doc[0].1, updating) {
                (Value::Doc(set), true) => set,
                _ => &doc,
            };
            for (name, _) in fields {
                assert!(!seen.contains(&name.as_str()));
                seen.push(name.as_str());
            }
        }
    }
}

use record_query::filter::{Clause, Field, Skip};
use record_query::pattern::Pattern;
use record_query::predicate::{compile_filters, compile_predicate, FilterEntry, Predicate, Skipped};
use regex::RegexBuilder;

fn entry(key: &str, value: &str) -> FilterEntry {
    FilterEntry { key: String::from(key), value: String::from(value) }
}

fn is_match(pattern: &Pattern, text: &str) -> bool {
    RegexBuilder::new(&pattern.source)
        .case_insensitive(pattern.ignore_case)
        .multi_line(pattern.multiline)
        .build()
        .unwrap()
        .is_match(text)
}

/// A document as far as these tests look at it.
struct Record {
    note: Option<&'static str>,
    tags: Vec<&'static str>,
}

/// Whether `record` meets `clause`, read as the store reads it.
fn meets(record: &Record, clause: &Clause) -> bool {
    match clause {
        Clause::Matches { field: Field::Note, pattern } => {
            record.note.map_or(false, |note| is_match(pattern, note))
        }
        Clause::Lacks { field: Field::Note, pattern } => {
            !record.note.map_or(false, |note| is_match(pattern, note))
        }
        Clause::Tagged { field: Field::Tags, all, any, none } => {
            let has = |pattern: &Pattern| record.tags.iter().any(|tag| is_match(pattern, tag));
            all.iter().all(|p| has(p))
                && (any.is_empty() || any.iter().any(|p| has(p)))
                && !none.iter().any(|p| has(p))
        }
        other => panic!("these tests do not evaluate {:?}", other),
    }
}

fn selects(predicate: &Predicate, record: &Record) -> bool {
    match predicate {
        Predicate::All => true,
        Predicate::And(clauses) => clauses.iter().all(|clause| meets(record, clause)),
    }
}

#[test]
fn no_filters_match_every_document() {
    let predicate = compile_predicate(&Vec::new());
    assert_eq!(predicate, Predicate::All);
}

#[test]
fn unknown_keys_and_empty_values_match_every_document() {
    let unknown = vec![entry("colour", "red"), entry("", "x"), entry("VOLUME", "3")];
    assert_eq!(compile_predicate(&unknown), compile_predicate(&Vec::new()));
    let empty = vec![entry("volume", ""), entry("tags", ""), entry("starred", "")];
    assert_eq!(compile_predicate(&empty), compile_predicate(&Vec::new()));
    let mixed = vec![entry("colour", "red"), entry("note", ""), entry("shape", "")];
    assert_eq!(compile_predicate(&mixed), Predicate::All);
}

#[test]
fn clauses_are_joined_in_the_order_of_the_entries() {
    let entries = vec![
        entry("volume", "2"),
        entry("colour", "red"),
        entry("starred", "y"),
        entry("type", ""),
        entry("cause", "maybe"),
        entry("effects", "n"),
    ];
    let compiled = compile_filters(&entries);
    assert_eq!(
        compiled.clauses,
        vec![
            Clause::Equals { field: Field::Volume, value: String::from("2") },
            Clause::IsTrue { field: Field::Starred },
            Clause::Exists { field: Field::Effects, present: false },
        ]
    );
    assert_eq!(
        compiled.skipped,
        vec![
            Skipped { key: String::from("colour"), reason: Skip::UnknownKey },
            Skipped { key: String::from("type"), reason: Skip::EmptyValue },
            Skipped { key: String::from("cause"), reason: Skip::UnrecognizedToken },
        ]
    );
    assert_eq!(compile_predicate(&entries), Predicate::And(compiled.clauses));
}

#[test]
fn combine_of_no_clause_is_match_all() {
    assert_eq!(Predicate::combine(Vec::new()), Predicate::All);
    let one = vec![Clause::IsTrue { field: Field::Starred }];
    assert_eq!(Predicate::combine(one.clone()), Predicate::And(one));
}

#[test]
fn a_single_entry_yields_a_conjunction_of_one() {
    let predicate = compile_predicate(&vec![entry("type", "civil")]);
    assert_eq!(
        predicate,
        Predicate::And(vec![Clause::Equals { field: Field::Type, value: String::from("civil") }])
    );
}

#[test]
fn tag_filter_selects_by_all_any_and_none() {
    let predicate = compile_predicate(&vec![entry("tags", "alpha ?beta -gamma")]);
    let both = Record { note: None, tags: vec!["alpha", "beta"] };
    let excluded = Record { note: None, tags: vec!["alpha", "gamma"] };
    let neither = Record { note: None, tags: vec!["alpha"] };
    let missing = Record { note: None, tags: vec!["beta"] };
    assert!(selects(&predicate, &both));
    assert!(!selects(&predicate, &excluded));
    assert!(!selects(&predicate, &neither));
    assert!(!selects(&predicate, &missing));
}

#[test]
fn tag_filter_without_optional_tags_asks_for_none() {
    let predicate = compile_predicate(&vec![entry("tags", "alpha -gamma")]);
    assert!(selects(&predicate, &Record { note: None, tags: vec!["Alpha"] }));
    assert!(!selects(&predicate, &Record { note: None, tags: vec!["alpha", "GAMMA"] }));
}

#[test]
fn negated_note_filter_selects_notes_without_the_text() {
    let predicate = compile_predicate(&vec![entry("note", "-dog")]);
    let without = Record { note: Some("a cat sat"), tags: vec![] };
    let with = Record { note: Some("the Dog barked"), tags: vec![] };
    let absent = Record { note: None, tags: vec![] };
    assert!(selects(&predicate, &without));
    assert!(!selects(&predicate, &with));
    assert!(selects(&predicate, &absent));
}

#[test]
fn note_filter_selects_notes_with_the_text() {
    let predicate = compile_predicate(&vec![entry("note", "dog")]);
    assert!(selects(&predicate, &Record { note: Some("first line\nthe DOG barked"), tags: vec![] }));
    assert!(!selects(&predicate, &Record { note: Some("a cat sat"), tags: vec![] }));
}

#[test]
fn compiling_twice_gives_the_same_predicate() {
    let entries = vec![entry("tags", "a ?b -c"), entry("page", "12"), entry("text", "x.y")];
    assert_eq!(compile_predicate(&entries), compile_predicate(&entries));
    assert_eq!(compile_filters(&entries), compile_filters(&entries));
}

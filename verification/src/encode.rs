//! Predicates, orderings and pipelines written out as the documents that the
//! store reads.

use crate::document::{
    doc_of, document_views, entry_views, lemma_sound_push, lemma_sound_single, list_of,
    push_entry, push_value, single, sound, sound_document, value_views, Document, DocumentView,
    Value, ValueView,
};
use crate::filter::{
    field_name, lemma_field_names_differ, pattern_views, Clause, ClauseView, Field,
};
use crate::grouping::{
    column_path, keys_of, lemma_keys_are_distinct, path_of, pipeline_of, stage_views, Stage,
    StageView,
};
use crate::pattern::{Pattern, PatternView};
use crate::predicate::{
    clause_views, inert, lemma_inert_filters_match_all, predicate_of, FilterEntryView, Predicate,
    PredicateView,
};
use crate::retrieval::{sort_fields, sort_order};
use crate::text::texts;
use vstd::prelude::*;

verus! {

/// Each pattern as a value.
pub open spec fn pattern_values(patterns: Seq<PatternView>) -> Seq<ValueView> {
    Seq::new(patterns.len(), |i: int| ValueView::Pattern(patterns[i]))
}

/// The entry `operator: patterns`, or nothing where there is no pattern.
pub open spec fn pattern_constraint(operator: Seq<char>, patterns: Seq<PatternView>)
    -> DocumentView {
    if patterns.len() == 0 {
        Seq::empty()
    } else {
        seq![(operator, ValueView::List(pattern_values(patterns)))]
    }
}

/// The document `{field: value}`.
pub open spec fn on_field(field: Field, value: ValueView) -> DocumentView {
    seq![(field_name(field), value)]
}

/// The document `{"$or": [first, second]}`.
pub open spec fn either(first: DocumentView, second: DocumentView) -> DocumentView {
    seq![("$or"@, ValueView::List(seq![ValueView::Doc(first), ValueView::Doc(second)]))]
}

/// The value `{"$exists": present}`.
pub open spec fn existence(present: bool) -> ValueView {
    ValueView::Doc(seq![("$exists"@, ValueView::Flag(present))])
}

/// A clause as the store reads it.
pub open spec fn clause_document(clause: ClauseView) -> DocumentView {
    match clause {
        ClauseView::Equals { field, value } => on_field(field, ValueView::Text(value)),
        ClauseView::Matches { field, pattern } => on_field(field, ValueView::Pattern(pattern)),
        ClauseView::Lacks { field, pattern } => on_field(
            field,
            ValueView::Doc(seq![("$not"@, ValueView::Pattern(pattern))]),
        ),
        ClauseView::MatchesEither { first, second, pattern } => either(
            on_field(first, ValueView::Pattern(pattern)),
            on_field(second, ValueView::Pattern(pattern)),
        ),
        ClauseView::Tagged { field, all, any, none } => on_field(
            field,
            ValueView::Doc(
                pattern_constraint("$all"@, all) + pattern_constraint("$in"@, any)
                    + pattern_constraint("$nin"@, none),
            ),
        ),
        ClauseView::Exists { field, present } => on_field(field, existence(present)),
        ClauseView::IsTrue { field } => on_field(field, ValueView::Flag(true)),
        ClauseView::FalseOrAbsent { field } => either(
            on_field(field, ValueView::Flag(false)),
            on_field(field, existence(false)),
        ),
    }
}

/// A list of patterns is sound.
proof fn lemma_pattern_values_sound(patterns: Seq<PatternView>)
    ensures
        sound(ValueView::List(pattern_values(patterns))),
{
    let items = pattern_values(patterns);
    assert forall|i: int| 0 <= i < items.len() implies sound(#[trigger] items[i]) by {
        assert(items[i] == ValueView::Pattern(patterns[i]));
    }
}

/// The constraints of a tag filter stand under three different operators.
proof fn lemma_tag_constraints_sound(
    all: Seq<PatternView>,
    any: Seq<PatternView>,
    none: Seq<PatternView>,
)
    ensures
        sound_document(
            pattern_constraint("$all"@, all) + pattern_constraint("$in"@, any) + pattern_constraint(
                "$nin"@,
                none,
            ),
        ),
{
    reveal_strlit("$all");
    reveal_strlit("$in");
    reveal_strlit("$nin");
    assert("$all"@.len() == 4 && "$in"@.len() == 3 && "$nin"@[1] == 'n' && "$all"@[1] == 'a');
    lemma_pattern_values_sound(all);
    lemma_pattern_values_sound(any);
    lemma_pattern_values_sound(none);
    let first = pattern_constraint("$all"@, all);
    let second = pattern_constraint("$in"@, any);
    let third = pattern_constraint("$nin"@, none);
    let whole = first + second + third;
    assert forall|i: int| 0 <= i < whole.len() implies sound(#[trigger] whole[i].1) && (whole[i].0
        == "$all"@ || whole[i].0 == "$in"@ || whole[i].0 == "$nin"@) by {
        if i < first.len() {
            assert(whole[i] == first[i]);
        } else if i < first.len() + second.len() {
            assert(whole[i] == second[i - first.len()]);
        } else {
            assert(whole[i] == third[i - first.len() - second.len()]);
        }
    }
    assert forall|i: int, j: int| 0 <= i < j < whole.len() implies whole[i].0 != whole[j].0 by {
        if i < first.len() {
            assert(whole[i] == first[i]);
        } else if i < first.len() + second.len() {
            assert(whole[i] == second[i - first.len()]);
        } else {
            assert(whole[i] == third[i - first.len() - second.len()]);
        }
        if j < first.len() {
            assert(whole[j] == first[j]);
        } else if j < first.len() + second.len() {
            assert(whole[j] == second[j - first.len()]);
        } else {
            assert(whole[j] == third[j - first.len() - second.len()]);
        }
    }
}

/// An alternative of two sound documents is sound.
proof fn lemma_either_sound(first: DocumentView, second: DocumentView)
    requires
        sound_document(first),
        sound_document(second),
    ensures
        sound_document(either(first, second)),
{
    let options = seq![ValueView::Doc(first), ValueView::Doc(second)];
    assert forall|i: int| 0 <= i < options.len() implies sound(#[trigger] options[i]) by {
        if i == 0 {
            assert(options[i] == ValueView::Doc(first));
        } else {
            assert(options[i] == ValueView::Doc(second));
        }
    }
    lemma_sound_single("$or"@, ValueView::List(options));
}

/// The document of a clause names each entry once, at every depth.
pub proof fn lemma_clause_document_sound(clause: ClauseView)
    ensures
        sound_document(clause_document(clause)),
{
    match clause {
        ClauseView::Equals { field, value } => {
            lemma_sound_single(field_name(field), ValueView::Text(value));
        },
        ClauseView::Matches { field, pattern } => {
            lemma_sound_single(field_name(field), ValueView::Pattern(pattern));
        },
        ClauseView::Lacks { field, pattern } => {
            lemma_sound_single("$not"@, ValueView::Pattern(pattern));
            lemma_sound_single(
                field_name(field),
                ValueView::Doc(seq![("$not"@, ValueView::Pattern(pattern))]),
            );
        },
        ClauseView::MatchesEither { first, second, pattern } => {
            lemma_sound_single(field_name(first), ValueView::Pattern(pattern));
            lemma_sound_single(field_name(second), ValueView::Pattern(pattern));
            lemma_either_sound(
                on_field(first, ValueView::Pattern(pattern)),
                on_field(second, ValueView::Pattern(pattern)),
            );
        },
        ClauseView::Tagged { field, all, any, none } => {
            lemma_tag_constraints_sound(all, any, none);
            lemma_sound_single(
                field_name(field),
                ValueView::Doc(
                    pattern_constraint("$all"@, all) + pattern_constraint("$in"@, any)
                        + pattern_constraint("$nin"@, none),
                ),
            );
        },
        ClauseView::Exists { field, present } => {
            lemma_sound_single("$exists"@, ValueView::Flag(present));
            lemma_sound_single(field_name(field), existence(present));
        },
        ClauseView::IsTrue { field } => {
            lemma_sound_single(field_name(field), ValueView::Flag(true));
        },
        ClauseView::FalseOrAbsent { field } => {
            lemma_sound_single("$exists"@, ValueView::Flag(false));
            lemma_sound_single(field_name(field), ValueView::Flag(false));
            lemma_sound_single(field_name(field), existence(false));
            lemma_either_sound(
                on_field(field, ValueView::Flag(false)),
                on_field(field, existence(false)),
            );
        },
    }
}

/// The document of a predicate, where there is one, names each entry once,
/// at every depth.
pub proof fn lemma_predicate_document_sound(predicate: PredicateView)
    ensures
        predicate_document(predicate) matches Some(doc) ==> sound_document(doc),
{
    match predicate {
        PredicateView::All => {},
        PredicateView::And(clauses) => {
            let items = clause_values(clauses);
            assert forall|i: int| 0 <= i < items.len() implies sound(#[trigger] items[i]) by {
                lemma_clause_document_sound(clauses[i]);
                assert(items[i] == ValueView::Doc(clause_document(clauses[i])));
            }
            lemma_sound_single("$and"@, ValueView::List(items));
        },
    }
}

/// Each clause as a document value.
pub open spec fn clause_values(clauses: Seq<ClauseView>) -> Seq<ValueView> {
    Seq::new(clauses.len(), |i: int| ValueView::Doc(clause_document(clauses[i])))
}

/// A predicate as the store reads it: no document for the predicate that
/// every document meets, and `{"$and": [clauses]}` for a conjunction.
pub open spec fn predicate_document(predicate: PredicateView) -> Option<DocumentView> {
    match predicate {
        PredicateView::All => None,
        PredicateView::And(clauses) => Some(
            seq![("$and"@, ValueView::List(clause_values(clauses)))],
        ),
    }
}

/// Filters that hold only unknown keys or empty values put no filter to the
/// store, as no filters at all do.
pub proof fn lemma_inert_filters_ask_for_everything(entries: Seq<FilterEntryView>)
    requires
        forall|i: int| 0 <= i < entries.len() ==> inert(#[trigger] entries[i]),
    ensures
        predicate_document(predicate_of(entries)) is None,
        predicate_document(predicate_of(entries)) == predicate_document(
            predicate_of(Seq::empty()),
        ),
{
    lemma_inert_filters_match_all(entries);
}

/// The ordering as the store reads it: each field ascending, most
/// significant first.
pub open spec fn sort_document() -> DocumentView {
    Seq::new(sort_fields().len(), |i: int| (field_name(sort_fields()[i]), ValueView::Int(1)))
}

/// The `_id` of a grouping: each key column under its own name.
pub open spec fn group_id(keys: Seq<Seq<char>>) -> DocumentView {
    Seq::new(keys.len(), |i: int| (keys[i], ValueView::Text(path_of(keys[i]))))
}

/// The ordering names each of its fields once.
pub proof fn lemma_sort_document_sound()
    ensures
        sound_document(sort_document()),
{
    let doc = sort_document();
    lemma_field_names_differ(Field::Volume, Field::Page);
    lemma_field_names_differ(Field::Volume, Field::Created);
    lemma_field_names_differ(Field::Page, Field::Created);
    assert forall|i: int| 0 <= i < doc.len() implies sound(#[trigger] doc[i].1) by {
        assert(doc[i].1 == ValueView::Int(1));
    }
}

/// The `_id` of a grouping by columns of which none occurs twice names each
/// column once.
pub proof fn lemma_group_id_sound(keys: Seq<Seq<char>>)
    requires
        keys.no_duplicates(),
    ensures
        sound_document(group_id(keys)),
{
    let doc = group_id(keys);
    assert forall|i: int| 0 <= i < doc.len() implies sound(#[trigger] doc[i].1) by {
        assert(doc[i].1 == ValueView::Text(path_of(keys[i])));
    }
}

/// The documents of a pipeline name each entry once, at every depth.
pub proof fn lemma_pipeline_documents_sound(specifiers: Seq<Seq<char>>)
    ensures
        forall|i: int|
            0 <= i < pipeline_documents(pipeline_of(specifiers)).len() ==> sound_document(
                #[trigger] pipeline_documents(pipeline_of(specifiers))[i],
            ),
{
    let stages = pipeline_of(specifiers);
    let docs = pipeline_documents(stages);
    lemma_keys_are_distinct(specifiers);
    assert forall|i: int| 0 <= i < docs.len() implies sound_document(#[trigger] docs[i]) by {
        assert(docs[i] == stage_document(stages[i]));
        match stages[i] {
            StageView::Unwind { column } => {
                reveal_strlit("path");
                reveal_strlit("preserveNullAndEmptyArrays");
                assert("path"@.len() == 4 && "preserveNullAndEmptyArrays"@.len() == 26);
                let body = seq![
                    ("path"@, ValueView::Text(path_of(column))),
                    ("preserveNullAndEmptyArrays"@, ValueView::Flag(false)),
                ];
                lemma_sound_single("path"@, ValueView::Text(path_of(column)));
                lemma_sound_push(
                    seq![("path"@, ValueView::Text(path_of(column)))],
                    "preserveNullAndEmptyArrays"@,
                    ValueView::Flag(false),
                );
                assert(body == seq![("path"@, ValueView::Text(path_of(column)))].push(
                    ("preserveNullAndEmptyArrays"@, ValueView::Flag(false)),
                ));
                lemma_sound_single("$unwind"@, ValueView::Doc(body));
            },
            StageView::GroupCount { keys } => {
                reveal_strlit("_id");
                reveal_strlit("quantity");
                assert("_id"@.len() == 3 && "quantity"@.len() == 8);
                assert(keys == keys_of(specifiers));
                lemma_group_id_sound(keys);
                lemma_sound_single("$sum"@, ValueView::Int(1));
                let count = ValueView::Doc(seq![("$sum"@, ValueView::Int(1))]);
                lemma_sound_single("_id"@, ValueView::Doc(group_id(keys)));
                lemma_sound_push(
                    seq![("_id"@, ValueView::Doc(group_id(keys)))],
                    "quantity"@,
                    count,
                );
                let body = seq![("_id"@, ValueView::Doc(group_id(keys))), ("quantity"@, count)];
                assert(body == seq![("_id"@, ValueView::Doc(group_id(keys)))].push(
                    ("quantity"@, count),
                ));
                lemma_sound_single("$group"@, ValueView::Doc(body));
            },
            StageView::SortByCountDescending => {
                lemma_sound_single("quantity"@, ValueView::Int(-1));
                lemma_sound_single(
                    "$sort"@,
                    ValueView::Doc(seq![("quantity"@, ValueView::Int(-1))]),
                );
            },
        }
    }
}

/// A stage of the counting pipeline as the store reads it.
pub open spec fn stage_document(stage: StageView) -> DocumentView {
    match stage {
        StageView::Unwind { column } => seq![
            (
                "$unwind"@,
                ValueView::Doc(
                    seq![
                        ("path"@, ValueView::Text(path_of(column))),
                        ("preserveNullAndEmptyArrays"@, ValueView::Flag(false)),
                    ],
                ),
            ),
        ],
        StageView::GroupCount { keys } => seq![
            (
                "$group"@,
                ValueView::Doc(
                    seq![
                        ("_id"@, ValueView::Doc(group_id(keys))),
                        ("quantity"@, ValueView::Doc(seq![("$sum"@, ValueView::Int(1))])),
                    ],
                ),
            ),
        ],
        StageView::SortByCountDescending => seq![
            ("$sort"@, ValueView::Doc(seq![("quantity"@, ValueView::Int(-1))])),
        ],
    }
}

/// A pipeline as the store reads it: one document per stage.
pub open spec fn pipeline_documents(stages: Seq<StageView>) -> Seq<DocumentView> {
    Seq::new(stages.len(), |i: int| stage_document(stages[i]))
}

/// The document `{field: value}`.
fn encode_on_field(field: Field, value: Value) -> (doc: Document)
    ensures
        entry_views(doc@) == on_field(field, value@),
{
    single(field.name(), value)
}

/// The document `{"$or": [first, second]}`.
fn encode_either(first: Document, second: Document) -> (doc: Document)
    ensures
        entry_views(doc@) == either(entry_views(first@), entry_views(second@)),
{
    let mut options: Vec<Value> = Vec::new();
    push_value(&mut options, doc_of(first));
    push_value(&mut options, doc_of(second));
    assert(value_views(options@) =~= seq![
        ValueView::Doc(entry_views(first@)),
        ValueView::Doc(entry_views(second@)),
    ]);
    single("$or", list_of(options))
}

/// The value `{"$exists": present}`.
fn encode_existence(present: bool) -> (value: Value)
    ensures
        value@ == existence(present),
{
    doc_of(single("$exists", Value::Flag(present)))
}

/// Appends the entry `operator: patterns` to `doc` unless there is no
/// pattern.
fn push_pattern_constraint(doc: &mut Document, operator: &str, patterns: &Vec<Pattern>)
    ensures
        entry_views(final(doc)@) == entry_views(old(doc)@) + pattern_constraint(
            operator@,
            pattern_views(patterns@),
        ),
{
    let ghost before = entry_views(doc@);
    if patterns.len() == 0 {
        assert(before + Seq::<(Seq<char>, ValueView)>::empty() == before);
        return ;
    }
    let mut values: Vec<Value> = Vec::new();
    let mut i: usize = 0;
    while i < patterns.len()
        invariant
            i <= patterns.len(),
            value_views(values@).len() == i,
            forall|j: int|
                0 <= j < i ==> #[trigger] value_views(values@)[j] == ValueView::Pattern(
                    patterns@[j]@,
                ),
        decreases patterns.len() - i,
    {
        push_value(&mut values, Value::Pattern(patterns[i].clone()));
        i = i + 1;
    }
    assert(value_views(values@) =~= pattern_values(pattern_views(patterns@)));
    push_entry(doc, operator, list_of(values));
    assert(before.push((operator@, ValueView::List(value_views(values@)))) == before + seq![
        (operator@, ValueView::List(value_views(values@))),
    ]);
}

/// Writes a clause as the store reads it.
pub fn encode_clause(clause: &Clause) -> (doc: Document)
    ensures
        entry_views(doc@) == clause_document(clause@),
{
    match clause {
        Clause::Equals { field, value } => encode_on_field(*field, Value::Text(value.clone())),
        Clause::Matches { field, pattern } => encode_on_field(
            *field,
            Value::Pattern(pattern.clone()),
        ),
        Clause::Lacks { field, pattern } => encode_on_field(
            *field,
            doc_of(single("$not", Value::Pattern(pattern.clone()))),
        ),
        Clause::MatchesEither { first, second, pattern } => encode_either(
            encode_on_field(*first, Value::Pattern(pattern.clone())),
            encode_on_field(*second, Value::Pattern(pattern.clone())),
        ),
        Clause::Tagged { field, all, any, none } => {
            let mut constraints: Document = Vec::new();
            assert(entry_views(constraints@) == Seq::<(Seq<char>, ValueView)>::empty());
            push_pattern_constraint(&mut constraints, "$all", all);
            push_pattern_constraint(&mut constraints, "$in", any);
            push_pattern_constraint(&mut constraints, "$nin", none);
            assert(entry_views(constraints@) =~= pattern_constraint(
                "$all"@,
                pattern_views(all@),
            ) + pattern_constraint("$in"@, pattern_views(any@))
                + pattern_constraint("$nin"@, pattern_views(none@)));
            encode_on_field(*field, doc_of(constraints))
        },
        Clause::Exists { field, present } => encode_on_field(*field, encode_existence(*present)),
        Clause::IsTrue { field } => encode_on_field(*field, Value::Flag(true)),
        Clause::FalseOrAbsent { field } => encode_either(
            encode_on_field(*field, Value::Flag(false)),
            encode_on_field(*field, encode_existence(false)),
        ),
    }
}

/// Writes a predicate as the store reads it; `None` stands for no filter.
pub fn encode_predicate(predicate: &Predicate) -> (doc: Option<Document>)
    ensures
        match doc {
            Some(d) => predicate_document(predicate@) == Some(entry_views(d@)),
            None => predicate_document(predicate@) is None,
        },
{
    match predicate {
        Predicate::All => None,
        Predicate::And(clauses) => {
            let mut values: Vec<Value> = Vec::new();
            let mut i: usize = 0;
            while i < clauses.len()
                invariant
                    i <= clauses.len(),
                    value_views(values@).len() == i,
                    forall|j: int|
                        0 <= j < i ==> #[trigger] value_views(values@)[j] == ValueView::Doc(
                            clause_document(clauses@[j]@),
                        ),
                decreases clauses.len() - i,
            {
                push_value(&mut values, doc_of(encode_clause(&clauses[i])));
                i = i + 1;
            }
            assert(value_views(values@) =~= clause_values(clause_views(clauses@)));
            Some(single("$and", list_of(values)))
        },
    }
}

/// Writes the ordering as the store reads it.
pub fn encode_sort() -> (doc: Document)
    ensures
        entry_views(doc@) == sort_document(),
{
    let fields = sort_order();
    let mut doc: Document = Vec::new();
    let mut i: usize = 0;
    assert(entry_views(doc@).len() == 0);
    while i < fields.len()
        invariant
            i <= fields.len(),
            fields@ == sort_fields(),
            entry_views(doc@).len() == i,
            forall|j: int|
                0 <= j < i ==> #[trigger] entry_views(doc@)[j] == (
                    field_name(fields@[j]),
                    ValueView::Int(1),
                ),
        decreases fields.len() - i,
    {
        push_entry(&mut doc, fields[i].name(), Value::Int(1));
        i = i + 1;
    }
    assert(entry_views(doc@) =~= sort_document());
    doc
}

/// Writes the `_id` of a grouping.
fn encode_group_id(keys: &Vec<String>) -> (doc: Document)
    ensures
        entry_views(doc@) == group_id(texts(keys@)),
{
    let mut doc: Document = Vec::new();
    let mut i: usize = 0;
    assert(entry_views(doc@).len() == 0);
    while i < keys.len()
        invariant
            i <= keys.len(),
            entry_views(doc@).len() == i,
            forall|j: int|
                0 <= j < i ==> #[trigger] entry_views(doc@)[j] == (
                    keys@[j]@,
                    ValueView::Text(path_of(keys@[j]@)),
                ),
        decreases keys.len() - i,
    {
        let path = column_path(keys[i].as_str());
        push_entry(&mut doc, keys[i].as_str(), Value::Text(path));
        i = i + 1;
    }
    assert(entry_views(doc@) =~= group_id(texts(keys@)));
    doc
}

/// Writes a stage of the counting pipeline as the store reads it.
pub fn encode_stage(stage: &Stage) -> (doc: Document)
    ensures
        entry_views(doc@) == stage_document(stage@),
{
    match stage {
        Stage::Unwind { column } => {
            let mut body: Document = Vec::new();
            assert(entry_views(body@).len() == 0);
            push_entry(&mut body, "path", Value::Text(column_path(column.as_str())));
            push_entry(&mut body, "preserveNullAndEmptyArrays", Value::Flag(false));
            assert(entry_views(body@) =~= seq![
                ("path"@, ValueView::Text(path_of(column@))),
                ("preserveNullAndEmptyArrays"@, ValueView::Flag(false)),
            ]);
            single("$unwind", doc_of(body))
        },
        Stage::GroupCount { keys } => {
            let mut body: Document = Vec::new();
            assert(entry_views(body@).len() == 0);
            push_entry(&mut body, "_id", doc_of(encode_group_id(keys)));
            push_entry(&mut body, "quantity", doc_of(single("$sum", Value::Int(1))));
            assert(entry_views(body@) =~= seq![
                ("_id"@, ValueView::Doc(group_id(texts(keys@)))),
                ("quantity"@, ValueView::Doc(seq![("$sum"@, ValueView::Int(1))])),
            ]);
            single("$group", doc_of(body))
        },
        Stage::SortByCountDescending => single(
            "$sort",
            doc_of(single("quantity", Value::Int(-1))),
        ),
    }
}

/// Writes a pipeline as the store reads it.
pub fn encode_pipeline(stages: &Vec<Stage>) -> (docs: Vec<Document>)
    ensures
        document_views(docs@) == pipeline_documents(stage_views(stages@)),
{
    let mut docs: Vec<Document> = Vec::new();
    let mut i: usize = 0;
    while i < stages.len()
        invariant
            i <= stages.len(),
            docs.len() == i,
            forall|j: int|
                0 <= j < i ==> entry_views(#[trigger] docs@[j]@) == stage_document(stages@[j]@),
        decreases stages.len() - i,
    {
        docs.push(encode_stage(&stages[i]));
        i = i + 1;
    }
    assert(document_views(docs@) =~= pipeline_documents(stage_views(stages@)));
    docs
}

} // verus!

//! The store's documents, as far as queries write them and grouped counts
//! read them: ordered lists of named values. A list of entries stands for a
//! map when no name occurs twice in it; `sound` says so of a value at every
//! depth, and each document that the library writes is proved sound.

use crate::pattern::{Pattern, PatternView};
use crate::text::same_text;
use vstd::prelude::*;

verus! {

/// A value inside a document.
#[derive(Debug, PartialEq, Eq)]
pub enum Value {
    /// A string.
    Text(String),
    /// A boolean.
    Flag(bool),
    /// A 32-bit integer.
    Int(i32),
    /// A 64-bit integer.
    Long(i64),
    /// A regular expression with its options.
    Pattern(Pattern),
    /// A list of values.
    List(Vec<Value>),
    /// A document: named values in order.
    Doc(Vec<(String, Value)>),
    /// A value of a kind that neither queries nor grouped counts use.
    Other,
}

/// The model of a `Value`.
pub enum ValueView {
    Text(Seq<char>),
    Flag(bool),
    Int(int),
    Long(int),
    Pattern(PatternView),
    List(Seq<ValueView>),
    Doc(Seq<(Seq<char>, ValueView)>),
    Other,
}

/// The model of a value.
pub open spec fn value_view(value: Value) -> ValueView
    decreases value,
{
    match value {
        Value::Text(s) => ValueView::Text(s@),
        Value::Flag(b) => ValueView::Flag(b),
        Value::Int(n) => ValueView::Int(n as int),
        Value::Long(n) => ValueView::Long(n as int),
        Value::Pattern(p) => ValueView::Pattern(p@),
        Value::List(items) => ValueView::List(value_views(items@)),
        Value::Doc(entries) => ValueView::Doc(entry_views(entries@)),
        Value::Other => ValueView::Other,
    }
}

/// The models of a sequence of values, in order.
pub open spec fn value_views(items: Seq<Value>) -> Seq<ValueView>
    decreases items,
{
    if items.len() == 0 {
        Seq::empty()
    } else {
        value_views(items.drop_last()).push(value_view(items.last()))
    }
}

/// The model of a document: the name and the model of each entry, in order.
pub open spec fn entry_views(entries: Seq<(String, Value)>) -> Seq<(Seq<char>, ValueView)>
    decreases entries,
{
    if entries.len() == 0 {
        Seq::empty()
    } else {
        entry_views(entries.drop_last()).push((entries.last().0@, value_view(entries.last().1)))
    }
}

impl View for Value {
    type V = ValueView;

    open spec fn view(&self) -> ValueView {
        value_view(*self)
    }
}

/// The models of a sequence of documents.
pub open spec fn document_views(docs: Seq<Vec<(String, Value)>>) -> Seq<
    Seq<(Seq<char>, ValueView)>,
> {
    Seq::new(docs.len(), |i: int| entry_views(docs[i]@))
}

/// The models of a sequence of values stand at the places of the values.
pub proof fn lemma_value_views(items: Seq<Value>)
    ensures
        value_views(items).len() == items.len(),
        forall|i: int| 0 <= i < items.len() ==> #[trigger] value_views(items)[i] == items[i]@,
    decreases items.len(),
{
    if items.len() > 0 {
        lemma_value_views(items.drop_last());
    }
}

/// The model of a document holds, at the place of each entry, the entry's
/// name and the model of its value.
pub proof fn lemma_entry_views(entries: Seq<(String, Value)>)
    ensures
        entry_views(entries).len() == entries.len(),
        forall|i: int|
            0 <= i < entries.len() ==> #[trigger] entry_views(entries)[i] == (
                entries[i].0@,
                entries[i].1@,
            ),
    decreases entries.len(),
{
    if entries.len() > 0 {
        lemma_entry_views(entries.drop_last());
    }
}

/// Appending a value appends its model.
pub proof fn lemma_value_views_push(items: Seq<Value>, value: Value)
    ensures
        value_views(items.push(value)) == value_views(items).push(value@),
{
    assert(items.push(value).drop_last() == items);
}

/// Appending an entry appends its model.
pub proof fn lemma_entry_views_push(entries: Seq<(String, Value)>, entry: (String, Value))
    ensures
        entry_views(entries.push(entry)) == entry_views(entries).push((entry.0@, entry.1@)),
{
    assert(entries.push(entry).drop_last() == entries);
}

/// The value under `key` in a document: that of the first entry so named.
pub open spec fn lookup(entries: Seq<(Seq<char>, ValueView)>, key: Seq<char>) -> Option<
    ValueView,
>
    decreases entries.len(),
{
    if entries.len() == 0 {
        None
    } else if entries[0].0 == key {
        Some(entries[0].1)
    } else {
        lookup(entries.drop_first(), key)
    }
}

/// Whether no name occurs twice among the entries of a document.
pub open spec fn unique_names(doc: Seq<(Seq<char>, ValueView)>) -> bool {
    forall|i: int, j: int| 0 <= i < j < doc.len() ==> doc[i].0 != doc[j].0
}

/// A value is sound when every document in it, at any depth, names each of
/// its entries once: then the list of entries stands for a map, and no entry
/// hides another.
pub open spec fn sound(value: ValueView) -> bool
    decreases value,
{
    match value {
        ValueView::List(items) => forall|i: int|
            0 <= i < items.len() ==> sound(#[trigger] items[i]),
        ValueView::Doc(entries) => unique_names(entries) && forall|i: int|
            0 <= i < entries.len() ==> sound(#[trigger] entries[i].1),
        _ => true,
    }
}

/// A document is sound when it is sound as a value.
pub open spec fn sound_document(doc: Seq<(Seq<char>, ValueView)>) -> bool {
    sound(ValueView::Doc(doc))
}

/// A document of one sound entry is sound.
pub proof fn lemma_sound_single(name: Seq<char>, value: ValueView)
    requires
        sound(value),
    ensures
        sound_document(seq![(name, value)]),
{
    let doc = seq![(name, value)];
    assert forall|i: int| 0 <= i < doc.len() implies sound(#[trigger] doc[i].1) by {
        assert(doc[i].1 == value);
    }
}

/// Behind a sound document, a sound entry under a new name keeps the
/// document sound.
pub proof fn lemma_sound_push(doc: Seq<(Seq<char>, ValueView)>, name: Seq<char>, value: ValueView)
    requires
        sound_document(doc),
        sound(value),
        forall|i: int| 0 <= i < doc.len() ==> doc[i].0 != name,
    ensures
        sound_document(doc.push((name, value))),
{
    let grown = doc.push((name, value));
    assert forall|i: int| 0 <= i < grown.len() implies sound(#[trigger] grown[i].1) by {
        if i < doc.len() {
            assert(grown[i] == doc[i]);
            assert(sound(doc[i].1));
        }
    }
    assert forall|i: int, j: int| 0 <= i < j < grown.len() implies grown[i].0 != grown[j].0 by {
        assert(grown[i] == doc[i]);
        if j < doc.len() {
            assert(grown[j] == doc[j]);
        }
    }
}

/// In a document that names each entry once, every entry is found under its
/// name.
pub proof fn lemma_lookup_finds(doc: Seq<(Seq<char>, ValueView)>, i: int)
    requires
        unique_names(doc),
        0 <= i < doc.len(),
    ensures
        lookup(doc, doc[i].0) == Some(doc[i].1),
    decreases i,
{
    if i > 0 {
        let rest = doc.drop_first();
        assert(doc[0].0 != doc[i].0);
        assert forall|a: int, b: int| 0 <= a < b < rest.len() implies rest[a].0 != rest[b].0 by {
            assert(rest[a] == doc[a + 1]);
            assert(rest[b] == doc[b + 1]);
        }
        assert(rest[i - 1] == doc[i]);
        lemma_lookup_finds(rest, i - 1);
    }
}

/// A document: named values in order.
pub type Document = Vec<(String, Value)>;

/// The model of a `Document`.
pub type DocumentView = Seq<(Seq<char>, ValueView)>;

/// Appends `value` to a list of values.
pub fn push_value(items: &mut Vec<Value>, value: Value)
    ensures
        value_views(final(items)@) == value_views(old(items)@).push(value@),
{
    proof {
        lemma_value_views_push(items@, value);
    }
    items.push(value);
}

/// Appends the entry `key: value` to a document.
pub fn push_entry(entries: &mut Vec<(String, Value)>, key: &str, value: Value)
    ensures
        entry_views(final(entries)@) == entry_views(old(entries)@).push((key@, value@)),
{
    let entry = (key.to_owned(), value);
    proof {
        lemma_entry_views_push(entries@, entry);
    }
    entries.push(entry);
}

/// A list value of these items.
pub fn list_of(items: Vec<Value>) -> (v: Value)
    ensures
        v@ == ValueView::List(value_views(items@)),
{
    Value::List(items)
}

/// A document value of these entries.
pub fn doc_of(entries: Vec<(String, Value)>) -> (v: Value)
    ensures
        v@ == ValueView::Doc(entry_views(entries@)),
{
    Value::Doc(entries)
}

/// A document of one entry.
pub fn single(key: &str, value: Value) -> (entries: Vec<(String, Value)>)
    ensures
        entry_views(entries@) == seq![(key@, value@)],
{
    let mut entries: Vec<(String, Value)> = Vec::new();
    push_entry(&mut entries, key, value);
    assert(entry_views(entries@) =~= seq![(key@, value@)]);
    entries
}

/// Finds the value under `key` in a document.
pub fn get<'a>(entries: &'a Vec<(String, Value)>, key: &str) -> (found: Option<&'a Value>)
    ensures
        match found {
            Some(value) => lookup(entry_views(entries@), key@) == Some(value@),
            None => lookup(entry_views(entries@), key@) is None,
        },
{
    let ghost all = entry_views(entries@);
    let mut i: usize = 0;
    proof {
        lemma_entry_views(entries@);
        assert(all.skip(0) == all);
    }
    while i < entries.len()
        invariant
            i <= entries.len(),
            all == entry_views(entries@),
            all.len() == entries.len(),
            forall|j: int|
                0 <= j < all.len() ==> #[trigger] all[j] == (entries@[j].0@, entries@[j].1@),
            lookup(all, key@) == lookup(all.skip(i as int), key@),
        decreases entries.len() - i,
    {
        let ghost rest = all.skip(i as int);
        assert(rest[0] == all[i as int]);
        assert(rest.drop_first() == all.skip(i + 1));
        if same_text(entries[i].0.as_str(), key) {
            return Some(&entries[i].1);
        }
        i = i + 1;
    }
    None
}

} // verus!

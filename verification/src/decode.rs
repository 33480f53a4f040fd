//! Grouped counts read out of the documents that the store returns.

use crate::document::{
    document_views, entry_views, get, lemma_entry_views, lemma_value_views, lookup, value_views,
    Document, DocumentView, Value, ValueView,
};
use crate::rows::{
    element_views, flat_rows, flatten_rows, group_row_views, part_views, results_view,
    AggregateRow, Element, ElementView, GroupRow, GroupRowView, GroupValue, GroupValueView,
    KeyPart, KeyPartView, RowFailure,
};
use vstd::prelude::*;

verus! {

/// A value as an element of a list-valued group key.
pub open spec fn element_of(value: ValueView) -> ElementView {
    match value {
        ValueView::Text(s) => ElementView::Text(s),
        _ => ElementView::Other,
    }
}

/// The elements of a list of values.
pub open spec fn elements_of(items: Seq<ValueView>) -> Seq<ElementView> {
    Seq::new(items.len(), |i: int| element_of(items[i]))
}

/// A value as the value of a column of a group key.
pub open spec fn group_value_of(value: ValueView) -> GroupValueView {
    match value {
        ValueView::Text(s) => GroupValueView::Text(s),
        ValueView::List(items) => GroupValueView::List(elements_of(items)),
        _ => GroupValueView::Other,
    }
}

/// The parts of a group key that is a document.
pub open spec fn parts_of(key: DocumentView) -> Seq<KeyPartView> {
    Seq::new(key.len(), |i: int| KeyPartView { column: key[i].0, value: group_value_of(key[i].1) })
}

/// The row that a document of grouped counts holds: its key under `_id`
/// where that is a document, its count under `quantity` where that is a
/// 32-bit integer.
pub open spec fn row_of(doc: DocumentView) -> GroupRowView {
    GroupRowView {
        key: match lookup(doc, "_id"@) {
            Some(ValueView::Doc(key)) => Some(parts_of(key)),
            _ => None,
        },
        quantity: match lookup(doc, "quantity"@) {
            Some(ValueView::Int(n)) => Some(n as i32),
            _ => None,
        },
    }
}

/// The rows that a list of documents holds.
pub open spec fn rows_of(docs: Seq<DocumentView>) -> Seq<GroupRowView> {
    Seq::new(docs.len(), |i: int| row_of(docs[i]))
}

/// Reads a value as the value of a column of a group key.
fn read_group_value(value: &Value) -> (out: GroupValue)
    ensures
        out@ == group_value_of(value@),
{
    match value {
        Value::Text(s) => GroupValue::Text(s.clone()),
        Value::List(items) => {
            let mut elements: Vec<Element> = Vec::new();
            let mut i: usize = 0;
            proof {
                lemma_value_views(items@);
            }
            while i < items.len()
                invariant
                    i <= items.len(),
                    elements.len() == i,
                    forall|j: int|
                        0 <= j < i ==> #[trigger] elements@[j]@ == element_of(items@[j]@),
                decreases items.len() - i,
            {
                let element = match &items[i] {
                    Value::Text(s) => Element::Text(s.clone()),
                    _ => Element::Other,
                };
                elements.push(element);
                i = i + 1;
            }
            assert(element_views(elements@) =~= elements_of(value_views(items@)));
            GroupValue::List(elements)
        },
        _ => GroupValue::Other,
    }
}

/// Reads the parts of a group key.
fn read_parts(key: &Document) -> (parts: Vec<KeyPart>)
    ensures
        part_views(parts@) == parts_of(entry_views(key@)),
{
    let mut parts: Vec<KeyPart> = Vec::new();
    let mut i: usize = 0;
    proof {
        lemma_entry_views(key@);
    }
    while i < key.len()
        invariant
            i <= key.len(),
            parts.len() == i,
            forall|j: int|
                0 <= j < i ==> #[trigger] parts@[j]@ == (KeyPartView {
                    column: key@[j].0@,
                    value: group_value_of(key@[j].1@),
                }),
        decreases key.len() - i,
    {
        parts.push(KeyPart { column: key[i].0.clone(), value: read_group_value(&key[i].1) });
        i = i + 1;
    }
    assert(part_views(parts@) =~= parts_of(entry_views(key@)));
    parts
}

/// Reads one document of grouped counts.
pub fn read_row(doc: &Document) -> (row: GroupRow)
    ensures
        row@ == row_of(entry_views(doc@)),
{
    let key = match get(doc, "_id") {
        Some(Value::Doc(key)) => Some(read_parts(key)),
        _ => None,
    };
    let quantity = match get(doc, "quantity") {
        Some(Value::Int(n)) => Some(*n),
        _ => None,
    };
    GroupRow { key, quantity }
}

/// Reads the documents of grouped counts in the order the store returned
/// them.
pub fn read_rows(docs: &Vec<Document>) -> (rows: Vec<GroupRow>)
    ensures
        group_row_views(rows@) == rows_of(document_views(docs@)),
{
    let mut rows: Vec<GroupRow> = Vec::new();
    let mut i: usize = 0;
    while i < docs.len()
        invariant
            i <= docs.len(),
            rows.len() == i,
            forall|j: int| 0 <= j < i ==> #[trigger] rows@[j]@ == row_of(entry_views(docs@[j]@)),
        decreases docs.len() - i,
    {
        rows.push(read_row(&docs[i]));
        i = i + 1;
    }
    assert(group_row_views(rows@) =~= rows_of(document_views(docs@)));
    rows
}

/// Reads the store's grouped counts and flattens them for presentation;
/// stops at the first row that cannot be flattened.
pub fn present_counts(docs: &Vec<Document>) -> (r: Result<Vec<AggregateRow>, RowFailure>)
    ensures
        results_view(r) == flat_rows(rows_of(document_views(docs@))),
{
    let rows = read_rows(docs);
    flatten_rows(&rows)
}

} // verus!

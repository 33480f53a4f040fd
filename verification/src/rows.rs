//! Grouped counts as the store returns them, flattened for presentation.

use crate::text::{join, joined, texts};
use vstd::prelude::*;

verus! {

/// An element of a list-valued group key.
#[derive(Clone, Debug, PartialEq, Eq)]
pub enum Element {
    /// A string.
    Text(String),
    /// Anything else.
    Other,
}

/// The model of an `Element`.
pub enum ElementView {
    Text(Seq<char>),
    Other,
}

impl View for Element {
    type V = ElementView;

    open spec fn view(&self) -> ElementView {
        match *self {
            Element::Text(s) => ElementView::Text(s@),
            Element::Other => ElementView::Other,
        }
    }
}

/// The models of a sequence of elements.
pub open spec fn element_views(v: Seq<Element>) -> Seq<ElementView> {
    Seq::new(v.len(), |i: int| v[i]@)
}

/// The value of one column of a group key.
#[derive(Clone, Debug, PartialEq, Eq)]
pub enum GroupValue {
    /// A string.
    Text(String),
    /// A list.
    List(Vec<Element>),
    /// Anything else.
    Other,
}

/// The model of a `GroupValue`.
pub enum GroupValueView {
    Text(Seq<char>),
    List(Seq<ElementView>),
    Other,
}

impl View for GroupValue {
    type V = GroupValueView;

    open spec fn view(&self) -> GroupValueView {
        match *self {
            GroupValue::Text(s) => GroupValueView::Text(s@),
            GroupValue::List(items) => GroupValueView::List(element_views(items@)),
            GroupValue::Other => GroupValueView::Other,
        }
    }
}

/// One column of a group key: its name and its value.
#[derive(Clone, Debug, PartialEq, Eq)]
pub struct KeyPart {
    pub column: String,
    pub value: GroupValue,
}

/// The model of a `KeyPart`.
pub struct KeyPartView {
    pub column: Seq<char>,
    pub value: GroupValueView,
}

impl View for KeyPart {
    type V = KeyPartView;

    open spec fn view(&self) -> KeyPartView {
        KeyPartView { column: self.column@, value: self.value@ }
    }
}

/// The models of the parts of a group key.
pub open spec fn part_views(v: Seq<KeyPart>) -> Seq<KeyPartView> {
    Seq::new(v.len(), |i: int| v[i]@)
}

/// One group as the store returns it. The key is absent where the row holds
/// none that is a document, the quantity where it holds none that is a
/// 32-bit integer.
#[derive(Clone, Debug, PartialEq, Eq)]
pub struct GroupRow {
    pub key: Option<Vec<KeyPart>>,
    pub quantity: Option<i32>,
}

/// One group for presentation: its key as pairs of column and value, and the
/// number of documents in it.
#[derive(Clone, Debug, PartialEq, Eq)]
pub struct AggregateRow {
    pub columns: Vec<(String, String)>,
    pub quantity: u32,
}

/// The model of an `AggregateRow`.
pub struct AggregateRowView {
    pub columns: Seq<(Seq<char>, Seq<char>)>,
    pub quantity: u32,
}

/// The models of a sequence of pairs of strings.
pub open spec fn pair_views(v: Seq<(String, String)>) -> Seq<(Seq<char>, Seq<char>)> {
    Seq::new(v.len(), |i: int| (v[i].0@, v[i].1@))
}

impl View for AggregateRow {
    type V = AggregateRowView;

    open spec fn view(&self) -> AggregateRowView {
        AggregateRowView { columns: pair_views(self.columns@), quantity: self.quantity }
    }
}

/// The models of a sequence of rows.
pub open spec fn row_views(v: Seq<AggregateRow>) -> Seq<AggregateRowView> {
    Seq::new(v.len(), |i: int| v[i]@)
}

/// What is wrong with a row of grouped counts.
#[derive(Clone, Copy, Debug, PartialEq, Eq, Structural)]
pub enum RowError {
    /// The row holds no group key.
    MissingKey,
    /// The value of the column at `index` of the key is neither a string nor
    /// a list of strings.
    BadValue { index: usize },
    /// The row holds no count.
    MissingQuantity,
    /// The count is negative.
    NegativeQuantity,
}

/// The separator between the elements of a list value.
pub open spec fn separator() -> Seq<char> {
    seq![' ']
}

/// Whether every element is a string.
pub open spec fn all_text(items: Seq<ElementView>) -> bool {
    forall|i: int| 0 <= i < items.len() ==> #[trigger] items[i] is Text
}

/// The strings of a list of string elements.
pub open spec fn element_texts(items: Seq<ElementView>) -> Seq<Seq<char>> {
    Seq::new(items.len(), |i: int| items[i]->Text_0)
}

/// The presentation of a value: a string as it is, a list of strings with
/// single spaces between its elements; nothing for any other value.
pub open spec fn flat_value(value: GroupValueView) -> Option<Seq<char>> {
    match value {
        GroupValueView::Text(s) => Some(s),
        GroupValueView::List(items) => if all_text(items) {
            Some(joined(element_texts(items), separator()))
        } else {
            None
        },
        GroupValueView::Other => None,
    }
}

/// Whether the part at `i` is the first that has no presentation.
pub open spec fn first_bad(parts: Seq<KeyPartView>, i: int) -> bool {
    &&& 0 <= i < parts.len()
    &&& flat_value(parts[i].value) is None
    &&& forall|j: int| 0 <= j < i ==> flat_value(#[trigger] parts[j].value) is Some
}

/// The place of the first part that has no presentation, where there is
/// one.
pub open spec fn first_bad_index(parts: Seq<KeyPartView>) -> int {
    choose|i: int| first_bad(parts, i)
}

/// The flattened key: each column with the presentation of its value.
pub open spec fn flat_key(parts: Seq<KeyPartView>) -> Seq<(Seq<char>, Seq<char>)> {
    Seq::new(parts.len(), |i: int| (parts[i].column, flat_value(parts[i].value)->Some_0))
}

/// The model of a `GroupRow`.
pub struct GroupRowView {
    pub key: Option<Seq<KeyPartView>>,
    pub quantity: Option<i32>,
}

impl View for GroupRow {
    type V = GroupRowView;

    open spec fn view(&self) -> GroupRowView {
        GroupRowView {
            key: match self.key {
                Some(parts) => Some(part_views(parts@)),
                None => None,
            },
            quantity: self.quantity,
        }
    }
}

/// The models of a sequence of rows as the store returns them.
pub open spec fn group_row_views(v: Seq<GroupRow>) -> Seq<GroupRowView> {
    Seq::new(v.len(), |i: int| v[i]@)
}

/// What flattening a row gives: the flattened row where the key is there,
/// each of its values is a string or a list of strings, and the count is a
/// non-negative integer; otherwise the first thing wrong, looking at the
/// key, then at its values in order, then at the count.
pub open spec fn flat_row(row: GroupRowView) -> Result<AggregateRowView, RowError> {
    match row.key {
        None => Err(RowError::MissingKey),
        Some(parts) => {
            if exists|i: int| first_bad(parts, i) {
                Err(RowError::BadValue { index: first_bad_index(parts) as usize })
            } else {
                match row.quantity {
                    None => Err(RowError::MissingQuantity),
                    Some(q) => if q < 0 {
                        Err(RowError::NegativeQuantity)
                    } else {
                        Ok(AggregateRowView { columns: flat_key(parts), quantity: q as u32 })
                    },
                }
            }
        },
    }
}

/// The model of a flattening result.
pub open spec fn result_view(r: Result<AggregateRow, RowError>) -> Result<
    AggregateRowView,
    RowError,
> {
    match r {
        Ok(row) => Ok(row@),
        Err(e) => Err(e),
    }
}

/// A row that cannot be flattened: its place among the rows and what is
/// wrong with it.
#[derive(Clone, Copy, Debug, PartialEq, Eq, Structural)]
pub struct RowFailure {
    pub row: usize,
    pub error: RowError,
}

/// Whether the row at `i` is the first that cannot be flattened.
pub open spec fn first_failure(rows: Seq<GroupRowView>, i: int) -> bool {
    &&& 0 <= i < rows.len()
    &&& flat_row(rows[i]) is Err
    &&& forall|j: int| 0 <= j < i ==> flat_row(#[trigger] rows[j]) is Ok
}

/// The place of the first row that cannot be flattened, where there is one.
pub open spec fn first_failure_index(rows: Seq<GroupRowView>) -> int {
    choose|i: int| first_failure(rows, i)
}

/// What flattening a list of rows gives: every row flattened, in order, or
/// the first row that cannot be, with what is wrong with it.
pub open spec fn flat_rows(rows: Seq<GroupRowView>) -> Result<Seq<AggregateRowView>, RowFailure> {
    if exists|i: int| first_failure(rows, i) {
        let at = first_failure_index(rows);
        Err(RowFailure { row: at as usize, error: flat_row(rows[at])->Err_0 })
    } else {
        Ok(Seq::new(rows.len(), |i: int| flat_row(rows[i])->Ok_0))
    }
}

/// The model of the result of flattening a list of rows.
pub open spec fn results_view(r: Result<Vec<AggregateRow>, RowFailure>) -> Result<
    Seq<AggregateRowView>,
    RowFailure,
> {
    match r {
        Ok(rows) => Ok(row_views(rows@)),
        Err(e) => Err(e),
    }
}

/// Presents one value of a group key.
pub fn flatten_value(value: &GroupValue) -> (flat: Option<String>)
    ensures
        match flat {
            Some(s) => flat_value(value@) == Some(s@),
            None => flat_value(value@) is None,
        },
{
    match value {
        GroupValue::Text(s) => Some(s.clone()),
        GroupValue::List(items) => {
            let mut parts: Vec<String> = Vec::new();
            let mut i: usize = 0;
            while i < items.len()
                invariant
                    i <= items.len(),
                    parts.len() == i,
                    value@ == GroupValueView::List(element_views(items@)),
                    forall|j: int| 0 <= j < i ==> #[trigger] items@[j]@ is Text,
                    forall|j: int| 0 <= j < i ==> items@[j]@->Text_0 == #[trigger] parts@[j]@,
                decreases items.len() - i,
            {
                match &items[i] {
                    Element::Text(s) => {
                        parts.push(s.clone());
                    },
                    Element::Other => {
                        assert(!(element_views(items@)[i as int] is Text));
                        return None;
                    },
                }
                i = i + 1;
            }
            proof {
                reveal_strlit(" ");
                assert(" "@ =~= separator());
                assert(all_text(element_views(items@)));
                assert(texts(parts@) =~= element_texts(element_views(items@)));
            }
            Some(join(&parts, " "))
        },
        GroupValue::Other => None,
    }
}

/// Flattens one row of grouped counts for presentation.
pub fn flatten_row(row: &GroupRow) -> (r: Result<AggregateRow, RowError>)
    ensures
        result_view(r) == flat_row(row@),
{
    let parts = match &row.key {
        Some(parts) => parts,
        None => {
            return Err(RowError::MissingKey);
        },
    };
    let ghost model = part_views(parts@);
    let mut columns: Vec<(String, String)> = Vec::new();
    let mut i: usize = 0;
    while i < parts.len()
        invariant
            i <= parts.len(),
            columns.len() == i,
            model == part_views(parts@),
            row@.key == Some(model),
            forall|j: int| 0 <= j < i ==> flat_value(#[trigger] model[j].value) is Some,
            forall|j: int|
                0 <= j < i ==> #[trigger] pair_views(columns@)[j] == (
                    model[j].column,
                    flat_value(model[j].value)->Some_0,
                ),
        decreases parts.len() - i,
    {
        let ghost had = pair_views(columns@);
        match flatten_value(&parts[i].value) {
            Some(flat) => {
                columns.push((parts[i].column.clone(), flat));
                assert forall|j: int| 0 <= j < i + 1 implies #[trigger] pair_views(columns@)[j]
                    == (model[j].column, flat_value(model[j].value)->Some_0) by {
                    if j < i {
                        assert(pair_views(columns@)[j] == had[j]);
                    }
                }
            },
            None => {
                proof {
                    assert(first_bad(model, i as int));
                    let at = first_bad_index(model);
                    assert(at == i) by {
                        if at < i {
                            assert(flat_value(model[at].value) is Some);
                        }
                        if i < at {
                            assert(flat_value(model[i as int].value) is Some);
                        }
                    }
                    assert(row@.key->Some_0 == model);
                }
                return Err(RowError::BadValue { index: i });
            },
        }
        i = i + 1;
    }
    proof {
        assert forall|k: int| !first_bad(model, k) by {
            if 0 <= k < model.len() {
                assert(flat_value(model[k].value) is Some);
            }
        }
        assert(pair_views(columns@) =~= flat_key(model));
    }
    match row.quantity {
        None => Err(RowError::MissingQuantity),
        Some(q) => {
            if q < 0 {
                Err(RowError::NegativeQuantity)
            } else {
                Ok(AggregateRow { columns, quantity: q as u32 })
            }
        },
    }
}

/// Flattens the rows of grouped counts in the order the store returned
/// them, and stops at the first that cannot be flattened.
pub fn flatten_rows(rows: &Vec<GroupRow>) -> (r: Result<Vec<AggregateRow>, RowFailure>)
    ensures
        results_view(r) == flat_rows(group_row_views(rows@)),
{
    let ghost model = group_row_views(rows@);
    let mut out: Vec<AggregateRow> = Vec::new();
    let mut i: usize = 0;
    while i < rows.len()
        invariant
            i <= rows.len(),
            out.len() == i,
            model == group_row_views(rows@),
            forall|j: int| 0 <= j < i ==> flat_row(#[trigger] model[j]) is Ok,
            forall|j: int| 0 <= j < i ==> #[trigger] out@[j]@ == flat_row(model[j])->Ok_0,
        decreases rows.len() - i,
    {
        assert(model[i as int] == rows@[i as int]@);
        match flatten_row(&rows[i]) {
            Ok(row) => {
                out.push(row);
            },
            Err(error) => {
                proof {
                    assert(first_failure(model, i as int));
                    let at = first_failure_index(model);
                    assert(at == i) by {
                        if at < i {
                            assert(flat_row(model[at]) is Ok);
                        }
                        if i < at {
                            assert(flat_row(model[i as int]) is Ok);
                        }
                    }
                }
                return Err(RowFailure { row: i, error });
            },
        }
        i = i + 1;
    }
    proof {
        assert forall|k: int| !first_failure(model, k) by {
            if 0 <= k < model.len() {
                assert(flat_row(model[k]) is Ok);
            }
        }
        assert(row_views(out@) =~= Seq::new(model.len(), |i: int| flat_row(model[i])->Ok_0));
    }
    Ok(out)
}

} // verus!

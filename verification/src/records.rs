//! Changes to single records: what to write when a record is saved, starred
//! or looked up by tag.

use crate::document::{
    doc_of, entry_views, lemma_entry_views, lemma_sound_push, lemma_sound_single, list_of,
    push_entry, push_value, single, sound, sound_document, value_views, Document, DocumentView,
    Value, ValueView,
};
use crate::encode::{clause_document, encode_clause};
use crate::filter::{field_name, lemma_field_names_differ, Clause, ClauseView, Field};
use crate::text::texts;
use vstd::prelude::*;

verus! {

/// The fields of a record as a caller hands them over; an absent field was
/// left empty.
#[derive(Clone, Debug, PartialEq, Eq)]
pub struct Record {
    pub tsu: Option<String>,
    pub tsa: Option<String>,
    pub kind: Option<String>,
    pub volume: Option<String>,
    pub page: Option<String>,
    pub cause: Option<String>,
    pub tags: Option<Vec<String>>,
    pub effects: Option<Vec<String>>,
    pub starred: Option<bool>,
}

/// The model of a `Record`.
pub struct RecordView {
    pub tsu: Option<Seq<char>>,
    pub tsa: Option<Seq<char>>,
    pub kind: Option<Seq<char>>,
    pub volume: Option<Seq<char>>,
    pub page: Option<Seq<char>>,
    pub cause: Option<Seq<char>>,
    pub tags: Option<Seq<Seq<char>>>,
    pub effects: Option<Seq<Seq<char>>>,
    pub starred: Option<bool>,
}

/// The model of an optional string.
pub open spec fn text_view(text: Option<String>) -> Option<Seq<char>> {
    match text {
        Some(s) => Some(s@),
        None => None,
    }
}

/// The model of an optional list of strings.
pub open spec fn list_view(list: Option<Vec<String>>) -> Option<Seq<Seq<char>>> {
    match list {
        Some(items) => Some(texts(items@)),
        None => None,
    }
}

impl View for Record {
    type V = RecordView;

    open spec fn view(&self) -> RecordView {
        RecordView {
            tsu: text_view(self.tsu),
            tsa: text_view(self.tsa),
            kind: text_view(self.kind),
            volume: text_view(self.volume),
            page: text_view(self.page),
            cause: text_view(self.cause),
            tags: list_view(self.tags),
            effects: list_view(self.effects),
            starred: self.starred,
        }
    }
}

/// Seconds as the store keeps them: a 32-bit integer where they fit one, a
/// 64-bit integer otherwise.
pub open spec fn seconds_value(seconds: u32) -> ValueView {
    if seconds <= i32::MAX {
        ValueView::Int(seconds as int)
    } else {
        ValueView::Long(seconds as int)
    }
}

/// The entry that stamps a save: `created` on a new record, `updated` on an
/// old one.
pub open spec fn stamp(updating: bool, seconds: u32) -> DocumentView {
    seq![
        (
            field_name(
                if updating {
                    Field::Updated
                } else {
                    Field::Created
                },
            ),
            seconds_value(seconds),
        ),
    ]
}

/// Each string as a value.
pub open spec fn text_values(items: Seq<Seq<char>>) -> Seq<ValueView> {
    Seq::new(items.len(), |i: int| ValueView::Text(items[i]))
}

/// What a string field sets: itself where it is given.
pub open spec fn text_set(field: Field, text: Option<Seq<char>>) -> DocumentView {
    match text {
        Some(s) => seq![(field_name(field), ValueView::Text(s))],
        None => Seq::empty(),
    }
}

/// Whether a list field holds anything.
pub open spec fn filled(list: Option<Seq<Seq<char>>>) -> bool {
    list is Some && list->Some_0.len() > 0
}

/// What a list field sets: itself where it is given and not empty.
pub open spec fn list_set(field: Field, list: Option<Seq<Seq<char>>>) -> DocumentView {
    if filled(list) {
        seq![(field_name(field), ValueView::List(text_values(list->Some_0)))]
    } else {
        Seq::empty()
    }
}

/// What the starred flag sets: itself where it is given.
pub open spec fn flag_set(field: Field, flag: Option<bool>) -> DocumentView {
    match flag {
        Some(b) => seq![(field_name(field), ValueView::Flag(b))],
        None => Seq::empty(),
    }
}

/// The entry that removes `field` where `gone` says so.
pub open spec fn removal(field: Field, gone: bool) -> DocumentView {
    if gone {
        seq![(field_name(field), ValueView::Text(Seq::empty()))]
    } else {
        Seq::empty()
    }
}

/// The fields that a save sets, behind its stamp.
pub open spec fn set_of(updating: bool, seconds: u32, record: RecordView) -> DocumentView {
    stamp(updating, seconds) + text_set(Field::Tsu, record.tsu) + text_set(Field::Tsa, record.tsa)
        + text_set(Field::Type, record.kind) + text_set(Field::Volume, record.volume) + text_set(
        Field::Page,
        record.page,
    ) + text_set(Field::Cause, record.cause) + list_set(Field::Tags, record.tags) + list_set(
        Field::Effects,
        record.effects,
    ) + flag_set(Field::Starred, record.starred)
}

/// The fields that an update removes: each string field that is absent and
/// each list field that is absent or empty.
pub open spec fn unset_of(record: RecordView) -> DocumentView {
    removal(Field::Tsu, record.tsu is None) + removal(Field::Tsa, record.tsa is None) + removal(
        Field::Type,
        record.kind is None,
    ) + removal(Field::Volume, record.volume is None) + removal(Field::Page, record.page is None)
        + removal(Field::Cause, record.cause is None) + removal(Field::Tags, !filled(record.tags))
        + removal(Field::Effects, !filled(record.effects))
}

/// The document that a save writes: for a new record the fields it sets,
/// for an old one the fields to set under `$set` and, where there are any,
/// the fields to remove under `$unset`.
pub open spec fn save_document(updating: bool, seconds: u32, record: RecordView) -> DocumentView {
    if updating {
        seq![("$set"@, ValueView::Doc(set_of(true, seconds, record)))] + (if unset_of(record).len()
            > 0 {
            seq![("$unset"@, ValueView::Doc(unset_of(record)))]
        } else {
            Seq::empty()
        })
    } else {
        set_of(false, seconds, record)
    }
}

/// The place of a field in the order in which a save writes fields; the two
/// stamps share the first place, since a save writes one of them.
spec fn rank(field: Field) -> int {
    match field {
        Field::Created => 0,
        Field::Updated => 0,
        Field::Tsu => 1,
        Field::Tsa => 2,
        Field::Type => 3,
        Field::Volume => 4,
        Field::Page => 5,
        Field::Cause => 6,
        Field::Tags => 7,
        Field::Effects => 8,
        Field::Starred => 9,
        Field::Note => 10,
    }
}

/// Whether every entry of `doc` is named after a field that is written
/// before place `bound`.
spec fn below(doc: DocumentView, bound: int) -> bool {
    forall|i: int|
        0 <= i < doc.len() ==> exists|field: Field|
            rank(field) < bound && field_name(field) == (#[trigger] doc[i]).0
}

/// Behind a sound document of fields written earlier, the entry of the next
/// field, if there is one, keeps the document sound.
proof fn lemma_next_field(doc: DocumentView, part: DocumentView, field: Field, value: ValueView)
    requires
        sound_document(doc),
        below(doc, rank(field)),
        sound(value),
        part == seq![(field_name(field), value)] || part == Seq::<(Seq<char>, ValueView)>::empty(),
    ensures
        sound_document(doc + part),
        below(doc + part, rank(field) + 1),
{
    let whole = doc + part;
    assert forall|i: int| 0 <= i < whole.len() implies exists|f: Field|
        rank(f) < rank(field) + 1 && field_name(f) == (#[trigger] whole[i]).0 by {
        if i < doc.len() {
            assert(whole[i] == doc[i]);
            let f = choose|f: Field| rank(f) < rank(field) && field_name(f) == doc[i].0;
            assert(rank(f) < rank(field) + 1 && field_name(f) == whole[i].0);
        } else {
            assert(whole[i] == part[0]);
            assert(rank(field) < rank(field) + 1 && field_name(field) == whole[i].0);
        }
    }
    if part.len() == 0 {
        assert(whole == doc);
    } else {
        assert(whole == doc.push((field_name(field), value)));
        assert forall|i: int| 0 <= i < doc.len() implies doc[i].0 != field_name(field) by {
            let f = choose|f: Field| rank(f) < rank(field) && field_name(f) == doc[i].0;
            lemma_field_names_differ(f, field);
        }
        lemma_sound_push(doc, field_name(field), value);
    }
}

/// A list of strings is sound.
proof fn lemma_text_values_sound(items: Seq<Seq<char>>)
    ensures
        sound(ValueView::List(text_values(items))),
{
    let values = text_values(items);
    assert forall|i: int| 0 <= i < values.len() implies sound(#[trigger] values[i]) by {
        assert(values[i] == ValueView::Text(items[i]));
    }
}

/// The fields that a save sets are each named once.
proof fn lemma_set_of_sound(updating: bool, seconds: u32, record: RecordView)
    ensures
        sound_document(set_of(updating, seconds, record)),
{
    let d0 = stamp(updating, seconds);
    let stamped = if updating {
        Field::Updated
    } else {
        Field::Created
    };
    lemma_sound_single(field_name(stamped), seconds_value(seconds));
    assert(below(d0, 1)) by {
        assert forall|i: int| 0 <= i < d0.len() implies exists|f: Field|
            rank(f) < 1 && field_name(f) == (#[trigger] d0[i]).0 by {
            assert(rank(stamped) < 1 && field_name(stamped) == d0[i].0);
        }
    }
    let text = |s: Option<Seq<char>>| ValueView::Text(s->Some_0);
    let d1 = d0 + text_set(Field::Tsu, record.tsu);
    lemma_next_field(d0, text_set(Field::Tsu, record.tsu), Field::Tsu, text(record.tsu));
    let d2 = d1 + text_set(Field::Tsa, record.tsa);
    lemma_next_field(d1, text_set(Field::Tsa, record.tsa), Field::Tsa, text(record.tsa));
    let d3 = d2 + text_set(Field::Type, record.kind);
    lemma_next_field(d2, text_set(Field::Type, record.kind), Field::Type, text(record.kind));
    let d4 = d3 + text_set(Field::Volume, record.volume);
    lemma_next_field(d3, text_set(Field::Volume, record.volume), Field::Volume, text(record.volume));
    let d5 = d4 + text_set(Field::Page, record.page);
    lemma_next_field(d4, text_set(Field::Page, record.page), Field::Page, text(record.page));
    let d6 = d5 + text_set(Field::Cause, record.cause);
    lemma_next_field(d5, text_set(Field::Cause, record.cause), Field::Cause, text(record.cause));
    let list = |l: Option<Seq<Seq<char>>>| ValueView::List(text_values(l->Some_0));
    lemma_text_values_sound(record.tags->Some_0);
    lemma_text_values_sound(record.effects->Some_0);
    let d7 = d6 + list_set(Field::Tags, record.tags);
    lemma_next_field(d6, list_set(Field::Tags, record.tags), Field::Tags, list(record.tags));
    let d8 = d7 + list_set(Field::Effects, record.effects);
    lemma_next_field(d7, list_set(Field::Effects, record.effects), Field::Effects, list(record.effects));
    lemma_next_field(
        d8,
        flag_set(Field::Starred, record.starred),
        Field::Starred,
        ValueView::Flag(record.starred->Some_0),
    );
}

/// The fields that an update removes are each named once.
proof fn lemma_unset_of_sound(record: RecordView)
    ensures
        sound_document(unset_of(record)),
{
    let gone = ValueView::Text(Seq::empty());
    let d0 = Seq::<(Seq<char>, ValueView)>::empty();
    let p1 = removal(Field::Tsu, record.tsu is None);
    let p2 = removal(Field::Tsa, record.tsa is None);
    let p3 = removal(Field::Type, record.kind is None);
    let p4 = removal(Field::Volume, record.volume is None);
    let p5 = removal(Field::Page, record.page is None);
    let p6 = removal(Field::Cause, record.cause is None);
    let p7 = removal(Field::Tags, !filled(record.tags));
    let p8 = removal(Field::Effects, !filled(record.effects));
    lemma_next_field(d0, p1, Field::Tsu, gone);
    assert(d0 + p1 == p1);
    lemma_next_field(p1, p2, Field::Tsa, gone);
    lemma_next_field(p1 + p2, p3, Field::Type, gone);
    lemma_next_field(p1 + p2 + p3, p4, Field::Volume, gone);
    lemma_next_field(p1 + p2 + p3 + p4, p5, Field::Page, gone);
    lemma_next_field(p1 + p2 + p3 + p4 + p5, p6, Field::Cause, gone);
    lemma_next_field(p1 + p2 + p3 + p4 + p5 + p6, p7, Field::Tags, gone);
    lemma_next_field(p1 + p2 + p3 + p4 + p5 + p6 + p7, p8, Field::Effects, gone);
}

/// The document of a save names each entry once, at every depth.
pub proof fn lemma_save_document_sound(updating: bool, seconds: u32, record: RecordView)
    ensures
        sound_document(save_document(updating, seconds, record)),
{
    lemma_set_of_sound(updating, seconds, record);
    if updating {
        lemma_unset_of_sound(record);
        reveal_strlit("$set");
        reveal_strlit("$unset");
        assert("$set"@.len() == 4 && "$unset"@.len() == 6);
        let set = ValueView::Doc(set_of(true, seconds, record));
        let unset = ValueView::Doc(unset_of(record));
        lemma_sound_single("$set"@, set);
        if unset_of(record).len() > 0 {
            lemma_sound_push(seq![("$set"@, set)], "$unset"@, unset);
            assert(seq![("$set"@, set)] + seq![("$unset"@, unset)] == seq![("$set"@, set)].push(
                ("$unset"@, unset),
            ));
        } else {
            assert(seq![("$set"@, set)] + Seq::<(Seq<char>, ValueView)>::empty() == seq![
                ("$set"@, set),
            ]);
        }
    }
}

/// Seconds as the store keeps them.
fn encode_seconds(seconds: u32) -> (value: Value)
    ensures
        value@ == seconds_value(seconds),
{
    if seconds <= 0x7fff_ffff {
        Value::Int(seconds as i32)
    } else {
        Value::Long(seconds as i64)
    }
}

/// Appends what a string field sets.
fn push_text(doc: &mut Document, field: Field, text: &Option<String>)
    ensures
        entry_views(final(doc)@) == entry_views(old(doc)@) + text_set(field, text_view(*text)),
{
    let ghost before = entry_views(doc@);
    match text {
        Some(s) => {
            push_entry(doc, field.name(), Value::Text(s.clone()));
            assert(before.push((field_name(field), ValueView::Text(s@))) == before + text_set(
                field,
                text_view(*text),
            ));
        },
        None => {
            assert(before + Seq::<(Seq<char>, ValueView)>::empty() == before);
        },
    }
}

/// Whether a list field holds anything.
fn is_filled(list: &Option<Vec<String>>) -> (b: bool)
    ensures
        b == filled(list_view(*list)),
{
    match list {
        Some(items) => items.len() > 0,
        None => false,
    }
}

/// Appends what a list field sets.
fn push_list(doc: &mut Document, field: Field, list: &Option<Vec<String>>)
    ensures
        entry_views(final(doc)@) == entry_views(old(doc)@) + list_set(field, list_view(*list)),
{
    let ghost before = entry_views(doc@);
    match list {
        Some(items) => {
            if items.len() > 0 {
                let mut values: Vec<Value> = Vec::new();
                let mut i: usize = 0;
                assert(value_views(values@).len() == 0);
                while i < items.len()
                    invariant
                        i <= items.len(),
                        value_views(values@).len() == i,
                        forall|j: int|
                            0 <= j < i ==> #[trigger] value_views(values@)[j] == ValueView::Text(
                                items@[j]@,
                            ),
                    decreases items.len() - i,
                {
                    push_value(&mut values, Value::Text(items[i].clone()));
                    i = i + 1;
                }
                assert(value_views(values@) =~= text_values(texts(items@)));
                push_entry(doc, field.name(), list_of(values));
                assert(before.push((field_name(field), ValueView::List(value_views(values@))))
                    == before + list_set(field, list_view(*list)));
            } else {
                assert(before + Seq::<(Seq<char>, ValueView)>::empty() == before);
            }
        },
        None => {
            assert(before + Seq::<(Seq<char>, ValueView)>::empty() == before);
        },
    }
}

/// Appends what the starred flag sets.
fn push_flag(doc: &mut Document, field: Field, flag: Option<bool>)
    ensures
        entry_views(final(doc)@) == entry_views(old(doc)@) + flag_set(field, flag),
{
    let ghost before = entry_views(doc@);
    match flag {
        Some(b) => {
            push_entry(doc, field.name(), Value::Flag(b));
            assert(before.push((field_name(field), ValueView::Flag(b))) == before + flag_set(
                field,
                flag,
            ));
        },
        None => {
            assert(before + Seq::<(Seq<char>, ValueView)>::empty() == before);
        },
    }
}

/// Appends the removal of `field` where `gone` says so.
fn push_removal(doc: &mut Document, field: Field, gone: bool)
    ensures
        entry_views(final(doc)@) == entry_views(old(doc)@) + removal(field, gone),
{
    let ghost before = entry_views(doc@);
    if gone {
        push_entry(doc, field.name(), Value::Text(String::new()));
        assert(before.push((field_name(field), ValueView::Text(Seq::empty()))) == before
            + removal(field, gone));
    } else {
        assert(before + Seq::<(Seq<char>, ValueView)>::empty() == before);
    }
}

/// The fields that a save sets, behind its stamp.
fn fields_to_set(updating: bool, seconds: u32, record: &Record) -> (doc: Document)
    ensures
        entry_views(doc@) == set_of(updating, seconds, record@),
{
    let stamped = if updating {
        Field::Updated
    } else {
        Field::Created
    };
    let mut doc = single(stamped.name(), encode_seconds(seconds));
    push_text(&mut doc, Field::Tsu, &record.tsu);
    push_text(&mut doc, Field::Tsa, &record.tsa);
    push_text(&mut doc, Field::Type, &record.kind);
    push_text(&mut doc, Field::Volume, &record.volume);
    push_text(&mut doc, Field::Page, &record.page);
    push_text(&mut doc, Field::Cause, &record.cause);
    push_list(&mut doc, Field::Tags, &record.tags);
    push_list(&mut doc, Field::Effects, &record.effects);
    push_flag(&mut doc, Field::Starred, record.starred);
    doc
}

/// The fields that an update removes.
fn fields_to_unset(record: &Record) -> (doc: Document)
    ensures
        entry_views(doc@) == unset_of(record@),
{
    let mut doc: Document = Vec::new();
    assert(entry_views(doc@) == Seq::<(Seq<char>, ValueView)>::empty());
    push_removal(&mut doc, Field::Tsu, record.tsu.is_none());
    push_removal(&mut doc, Field::Tsa, record.tsa.is_none());
    push_removal(&mut doc, Field::Type, record.kind.is_none());
    push_removal(&mut doc, Field::Volume, record.volume.is_none());
    push_removal(&mut doc, Field::Page, record.page.is_none());
    push_removal(&mut doc, Field::Cause, record.cause.is_none());
    push_removal(&mut doc, Field::Tags, !is_filled(&record.tags));
    push_removal(&mut doc, Field::Effects, !is_filled(&record.effects));
    assert(entry_views(doc@) =~= unset_of(record@));
    doc
}

/// Writes the document of a save at `seconds` since the epoch: the record
/// to insert, or, when `updating`, the changes to make to an old one.
pub fn encode_save(updating: bool, seconds: u32, record: &Record) -> (doc: Document)
    ensures
        entry_views(doc@) == save_document(updating, seconds, record@),
{
    let set = fields_to_set(updating, seconds, record);
    if !updating {
        return set;
    }
    let unset = fields_to_unset(record);
    let mut doc = single("$set", doc_of(set));
    let ghost before = entry_views(doc@);
    if unset.len() > 0 {
        proof {
            lemma_entry_views(unset@);
        }
        push_entry(&mut doc, "$unset", doc_of(unset));
        assert(entry_views(doc@) =~= save_document(updating, seconds, record@));
    } else {
        proof {
            lemma_entry_views(unset@);
            assert(before + Seq::<(Seq<char>, ValueView)>::empty() == before);
        }
    }
    doc
}

/// The change that toggles a star: set the flag where it was not set,
/// remove it where it was.
pub open spec fn star_document(starred: bool) -> DocumentView {
    if starred {
        seq![
            ("$unset"@, ValueView::Doc(seq![(field_name(Field::Starred), ValueView::Flag(false))])),
        ]
    } else {
        seq![("$set"@, ValueView::Doc(seq![(field_name(Field::Starred), ValueView::Flag(true))]))]
    }
}

/// The change that toggles a star names each entry once, at every depth.
pub proof fn lemma_star_document_sound(starred: bool)
    ensures
        sound_document(star_document(starred)),
{
    lemma_sound_single(field_name(Field::Starred), ValueView::Flag(!starred));
    let inner = ValueView::Doc(seq![(field_name(Field::Starred), ValueView::Flag(!starred))]);
    if starred {
        lemma_sound_single("$unset"@, inner);
    } else {
        lemma_sound_single("$set"@, inner);
    }
}

/// Writes the change that toggles the star of a record that is `starred`
/// now, and says whether the record is starred afterwards.
pub fn encode_star(starred: bool) -> (r: (Document, bool))
    ensures
        entry_views(r.0@) == star_document(starred),
        r.1 == !starred,
{
    if starred {
        (single("$unset", doc_of(single(Field::Starred.name(), Value::Flag(false)))), false)
    } else {
        (single("$set", doc_of(single(Field::Starred.name(), Value::Flag(true)))), true)
    }
}

/// The clause that a record meets when it carries `tag`.
pub open spec fn tag_clause(tag: Seq<char>) -> ClauseView {
    ClauseView::Equals { field: Field::Tags, value: tag }
}

/// Writes the filter for the records that carry `tag`.
pub fn encode_tag_lookup(tag: &str) -> (doc: Document)
    ensures
        entry_views(doc@) == clause_document(tag_clause(tag@)),
{
    encode_clause(&Clause::Equals { field: Field::Tags, value: tag.to_owned() })
}

} // verus!

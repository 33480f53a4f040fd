//! Filter sets and the conjunction of the clauses they compile to.

use crate::filter::{
    compile_entry, key_of, outcome_of, Clause, ClauseView, Outcome, OutcomeView, Skip,
};
use vstd::prelude::*;

verus! {

/// One entry of a filter set: a raw key and its raw value.
#[derive(Clone, Debug, PartialEq, Eq)]
pub struct FilterEntry {
    pub key: String,
    pub value: String,
}

/// The model of a `FilterEntry`.
pub struct FilterEntryView {
    pub key: Seq<char>,
    pub value: Seq<char>,
}

impl View for FilterEntry {
    type V = FilterEntryView;

    open spec fn view(&self) -> FilterEntryView {
        FilterEntryView { key: self.key@, value: self.value@ }
    }
}

/// The models of the entries of a filter set.
pub open spec fn filter_views(v: Seq<FilterEntry>) -> Seq<FilterEntryView> {
    Seq::new(v.len(), |i: int| v[i]@)
}

/// The models of a sequence of clauses.
pub open spec fn clause_views(v: Seq<Clause>) -> Seq<ClauseView> {
    Seq::new(v.len(), |i: int| v[i]@)
}

/// An entry that was passed over, with the reason.
#[derive(Clone, Debug, PartialEq, Eq)]
pub struct Skipped {
    pub key: String,
    pub reason: Skip,
}

/// The model of a `Skipped`.
pub struct SkippedView {
    pub key: Seq<char>,
    pub reason: Skip,
}

impl View for Skipped {
    type V = SkippedView;

    open spec fn view(&self) -> SkippedView {
        SkippedView { key: self.key@, reason: self.reason }
    }
}

/// The models of a sequence of passed-over entries.
pub open spec fn skipped_views(v: Seq<Skipped>) -> Seq<SkippedView> {
    Seq::new(v.len(), |i: int| v[i]@)
}

/// The clause that an entry contributes, if it contributes one.
pub open spec fn clause_of(entry: FilterEntryView) -> Option<ClauseView> {
    match outcome_of(entry.key, entry.value) {
        OutcomeView::Clause(c) => Some(c),
        OutcomeView::Skipped(_) => None,
    }
}

/// The record of an entry being passed over, if it is.
pub open spec fn skipped_of(entry: FilterEntryView) -> Option<SkippedView> {
    match outcome_of(entry.key, entry.value) {
        OutcomeView::Clause(_) => None,
        OutcomeView::Skipped(reason) => Some(SkippedView { key: entry.key, reason }),
    }
}

/// `clause_of` as a function value.
pub open spec fn clause_picker() -> spec_fn(FilterEntryView) -> Option<ClauseView> {
    |entry: FilterEntryView| clause_of(entry)
}

/// `skipped_of` as a function value.
pub open spec fn skipped_picker() -> spec_fn(FilterEntryView) -> Option<SkippedView> {
    |entry: FilterEntryView| skipped_of(entry)
}

/// The clauses of a filter set: one per entry that contributes one, in the
/// order of the entries.
pub open spec fn compiled(entries: Seq<FilterEntryView>) -> Seq<ClauseView> {
    entries.filter_map(clause_picker())
}

/// The entries of a filter set that contribute no clause, in their order.
pub open spec fn passed_over(entries: Seq<FilterEntryView>) -> Seq<SkippedView> {
    entries.filter_map(skipped_picker())
}

/// A predicate over documents: every document, or those that meet each of a
/// list of clauses.
#[derive(Clone, Debug, PartialEq, Eq)]
pub enum Predicate {
    /// Every document matches.
    All,
    /// A document matches when it meets every clause.
    And(Vec<Clause>),
}

/// The model of a `Predicate`.
pub enum PredicateView {
    All,
    And(Seq<ClauseView>),
}

impl View for Predicate {
    type V = PredicateView;

    open spec fn view(&self) -> PredicateView {
        match *self {
            Predicate::All => PredicateView::All,
            Predicate::And(clauses) => PredicateView::And(clause_views(clauses@)),
        }
    }
}

/// The conjunction of `clauses`; of no clauses, the predicate that every
/// document meets.
pub open spec fn conjunction(clauses: Seq<ClauseView>) -> PredicateView {
    if clauses.len() == 0 {
        PredicateView::All
    } else {
        PredicateView::And(clauses)
    }
}

impl Predicate {
    /// A conjunction holds at least one clause: with none the predicate is
    /// `All`.
    pub open spec fn wf(&self) -> bool {
        match *self {
            Predicate::All => true,
            Predicate::And(clauses) => clauses@.len() > 0,
        }
    }

    /// Joins clauses by logical and.
    pub fn combine(clauses: Vec<Clause>) -> (p: Predicate)
        ensures
            p@ == conjunction(clause_views(clauses@)),
            p.wf(),
    {
        if clauses.len() == 0 {
            Predicate::All
        } else {
            Predicate::And(clauses)
        }
    }
}

/// What a filter set compiles to: its clauses and the entries passed over.
#[derive(Clone, Debug, PartialEq, Eq)]
pub struct Compiled {
    pub clauses: Vec<Clause>,
    pub skipped: Vec<Skipped>,
}

/// Compiles each entry of a filter set, one key at a time.
pub fn compile_filters(entries: &Vec<FilterEntry>) -> (out: Compiled)
    ensures
        clause_views(out.clauses@) == compiled(filter_views(entries@)),
        skipped_views(out.skipped@) == passed_over(filter_views(entries@)),
{
    let mut clauses: Vec<Clause> = Vec::new();
    let mut skipped: Vec<Skipped> = Vec::new();
    let ghost all = filter_views(entries@);
    let mut i: usize = 0;
    while i < entries.len()
        invariant
            i <= entries.len(),
            all == filter_views(entries@),
            clause_views(clauses@) == compiled(all.take(i as int)),
            skipped_views(skipped@) == passed_over(all.take(i as int)),
        decreases entries.len() - i,
    {
        let ghost had = clause_views(clauses@);
        let ghost left = skipped_views(skipped@);
        proof {
            all.lemma_filter_map_take_succ(clause_picker(), i as int);
            all.lemma_filter_map_take_succ(skipped_picker(), i as int);
            assert(all[i as int] == entries@[i as int]@);
        }
        match compile_entry(entries[i].key.as_str(), entries[i].value.as_str()) {
            Outcome::Clause(clause) => {
                clauses.push(clause);
                assert(clause_views(clauses@) == had + seq![clause@]);
                assert(left + Seq::<SkippedView>::empty() == left);
            },
            Outcome::Skipped(reason) => {
                let entry = Skipped { key: entries[i].key.clone(), reason };
                skipped.push(entry);
                assert(skipped_views(skipped@) == left + seq![entry@]);
                assert(had + Seq::<ClauseView>::empty() == had);
            },
        }
        i = i + 1;
    }
    proof {
        assert(all.take(entries.len() as int) == all);
    }
    Compiled { clauses, skipped }
}

/// The predicate of a filter set: the conjunction of its clauses.
pub open spec fn predicate_of(entries: Seq<FilterEntryView>) -> PredicateView {
    conjunction(compiled(entries))
}

/// Compiles a filter set to one predicate.
pub fn compile_predicate(entries: &Vec<FilterEntry>) -> (p: Predicate)
    ensures
        p@ == predicate_of(filter_views(entries@)),
        p.wf(),
{
    Predicate::combine(compile_filters(entries).clauses)
}

/// An entry that cannot contribute: its value is empty or its key is
/// outside the vocabulary.
pub open spec fn inert(entry: FilterEntryView) -> bool {
    entry.value.len() == 0 || key_of(entry.key) is None
}

/// A filter set of inert entries only compiles to no clause.
pub proof fn lemma_inert_entries_compile_to_nothing(entries: Seq<FilterEntryView>)
    requires
        forall|i: int| 0 <= i < entries.len() ==> inert(#[trigger] entries[i]),
    ensures
        compiled(entries) == Seq::<ClauseView>::empty(),
    decreases entries.len(),
{
    if entries.len() > 0 {
        let rest = entries.drop_last();
        assert forall|i: int| 0 <= i < rest.len() implies inert(#[trigger] rest[i]) by {
            assert(rest[i] == entries[i]);
        }
        lemma_inert_entries_compile_to_nothing(rest);
        assert(inert(entries[entries.len() - 1]));
    }
}

/// A filter set that holds only unknown keys or empty values selects what
/// the empty filter set selects: every document.
pub proof fn lemma_inert_filters_match_all(entries: Seq<FilterEntryView>)
    requires
        forall|i: int| 0 <= i < entries.len() ==> inert(#[trigger] entries[i]),
    ensures
        predicate_of(entries) == predicate_of(Seq::empty()),
        predicate_of(entries) == PredicateView::All,
{
    lemma_inert_entries_compile_to_nothing(entries);
}

} // verus!

//! Ordered retrieval of one page: what to ask of the store, in which order,
//! and what to hand back.

use crate::filter::Field;
use crate::paging::{
    clamp_page, lemma_walk_back_bounds, request, requested, walk_back, Page, PageError,
};
use crate::predicate::{compile_predicate, filter_views, predicate_of, FilterEntry, Predicate};
use vstd::prelude::*;

verus! {

/// The locale under which the store compares strings.
pub const COLLATION_LOCALE: &'static str = "en_US";

/// Whether runs of digits inside strings compare by their numeric value.
pub const NUMERIC_ORDERING: bool = true;

/// The fields that documents are ordered by, most significant first; each
/// ascending.
pub open spec fn sort_fields() -> Seq<Field> {
    seq![Field::Volume, Field::Page, Field::Created]
}

/// The fields to order by, most significant first; each ascending.
pub fn sort_order() -> (fields: Vec<Field>)
    ensures
        fields@ == sort_fields(),
{
    let mut fields: Vec<Field> = Vec::new();
    fields.push(Field::Volume);
    fields.push(Field::Page);
    fields.push(Field::Created);
    assert(fields@ == sort_fields());
    fields
}

/// A request for one page of the documents that meet a predicate. Its page
/// and size are positive, and its predicate, where it is a conjunction,
/// holds a clause.
#[derive(Debug, PartialEq, Eq)]
pub struct Query {
    predicate: Predicate,
    page: u64,
    size: u64,
}

impl Query {
    /// Page and size are positive and the predicate is well formed.
    #[verifier::type_invariant]
    pub closed spec fn wf(&self) -> bool {
        &&& self.page >= 1
        &&& self.size >= 1
        &&& self.predicate.wf()
    }

    /// The page asked for.
    pub closed spec fn spec_page(&self) -> u64 {
        self.page
    }

    /// The size of a page.
    pub closed spec fn spec_size(&self) -> u64 {
        self.size
    }

    /// The predicate that documents must meet.
    pub closed spec fn spec_predicate(&self) -> Predicate {
        self.predicate
    }

    /// A well-formed request asks for a positive page of a positive size.
    pub proof fn lemma_positive(&self)
        requires
            self.wf(),
        ensures
            self.spec_page() >= 1,
            self.spec_size() >= 1,
            self.spec_predicate().wf(),
    {
    }

    /// The page asked for.
    #[verifier::when_used_as_spec(spec_page)]
    pub fn page(&self) -> (page: u64)
        ensures
            page == self.spec_page(),
            page >= 1,
    {
        proof {
            use_type_invariant(self);
        }
        self.page
    }

    /// The size of a page.
    #[verifier::when_used_as_spec(spec_size)]
    pub fn size(&self) -> (size: u64)
        ensures
            size == self.spec_size(),
            size >= 1,
    {
        proof {
            use_type_invariant(self);
        }
        self.size
    }

    /// The predicate that documents must meet.
    pub fn predicate(&self) -> (predicate: &Predicate)
        ensures
            *predicate == self.spec_predicate(),
            predicate.wf(),
    {
        proof {
            use_type_invariant(self);
        }
        &self.predicate
    }

    /// Builds the request for `page` of `size` under `filters`, with the
    /// defaults for what is absent. A zero size, and then a zero page, is
    /// refused.
    pub fn new(page: Option<u64>, size: Option<u64>, filters: &Vec<FilterEntry>) -> (r: Result<
        Query,
        PageError,
    >)
        ensures
            match requested(page, size) {
                Ok(request) => {
                    &&& r is Ok
                    &&& r->Ok_0.wf()
                    &&& r->Ok_0.spec_page() == request.0
                    &&& r->Ok_0.spec_size() == request.1
                    &&& r->Ok_0.spec_predicate()@ == predicate_of(filter_views(filters@))
                },
                Err(e) => r == Err::<Query, PageError>(e),
            },
    {
        match request(page, size) {
            Ok((page, size)) => Ok(Query { predicate: compile_predicate(filters), page, size }),
            Err(e) => Err(e),
        }
    }
}

/// Where a retrieval stands.
#[derive(Debug, PartialEq, Eq)]
pub enum Session {
    /// The count of matching documents is awaited.
    Counting { query: Query },
    /// The page of documents is awaited.
    Fetching { query: Query, page: Page, total: u64 },
    /// Nothing more is awaited.
    Closed,
}

/// What the store has answered.
#[derive(Debug, PartialEq, Eq)]
pub enum Event<D> {
    /// So many documents meet the predicate.
    Counted(u64),
    /// These are the documents of the page, in order.
    Fetched(Vec<D>),
    /// The store could not answer.
    Failed,
}

/// Why a retrieval ended without a result.
#[derive(Clone, Copy, Debug, PartialEq, Eq, Structural)]
pub enum QueryError {
    /// The store failed; this is not an empty result.
    Store,
    /// An answer came that was not awaited.
    OutOfTurn,
}

/// One page of documents with what a caller needs to render paging.
#[derive(Debug, PartialEq, Eq)]
pub struct QueryResult<D> {
    pub documents: Vec<D>,
    pub page: u64,
    pub total: u64,
}

/// What to do next.
#[derive(Debug, PartialEq, Eq)]
pub enum Action<D> {
    /// Count the documents that meet the session's predicate.
    Count,
    /// Fetch the documents that meet the session's predicate: order them by
    /// `sort_order` under the collation, pass over `skip` of them and take at
    /// most `limit`.
    Fetch { skip: u64, limit: u64 },
    /// Hand the result to the caller.
    Return(QueryResult<D>),
    /// Report the failure to the caller.
    Fail(QueryError),
}

/// The session and the action that follow `event` in `session`. The count
/// comes first, the page is clamped against it, and the fetch uses the
/// clamped offset; a failure of the store ends the retrieval, and so does an
/// answer out of turn.
pub open spec fn step<D>(session: Session, event: Event<D>) -> (Session, Action<D>) {
    match (session, event) {
        (Session::Counting { query }, Event::Counted(total)) => {
            let number = walk_back(query.page() as int, query.size() as int, total as int);
            let page = Page {
                number: number as u64,
                size: query.size(),
                skip: ((number - 1) * query.size()) as u64,
            };
            (
                Session::Fetching { query, page, total },
                Action::Fetch { skip: page.skip, limit: query.size() },
            )
        },
        (Session::Fetching { query, page, total }, Event::Fetched(documents)) => (
            Session::Closed,
            Action::Return(QueryResult { documents, page: page.number, total }),
        ),
        (Session::Counting { .. }, Event::Failed) => (
            Session::Closed,
            Action::Fail(QueryError::Store),
        ),
        (Session::Fetching { .. }, Event::Failed) => (
            Session::Closed,
            Action::Fail(QueryError::Store),
        ),
        _ => (Session::Closed, Action::Fail(QueryError::OutOfTurn)),
    }
}

impl Session {
    /// Opens a retrieval: the first thing to ask of the store is the count.
    pub fn open<D>(query: Query) -> (r: (Session, Action<D>))
        ensures
            r.0 == (Session::Counting { query }),
            r.1 == Action::<D>::Count,
    {
        (Session::Counting { query }, Action::Count)
    }

    /// The predicate that the awaited answer is about, while one is awaited.
    pub fn predicate(&self) -> (p: Option<&Predicate>)
        ensures
            p == match *self {
                Session::Counting { query } => Some(&query.spec_predicate()),
                Session::Fetching { query, .. } => Some(&query.spec_predicate()),
                Session::Closed => None,
            },
    {
        match self {
            Session::Counting { query } => Some(query.predicate()),
            Session::Fetching { query, .. } => Some(query.predicate()),
            Session::Closed => None,
        }
    }

    /// Takes the store's answer and says what to do next.
    pub fn advance<D>(self, event: Event<D>) -> (r: (Session, Action<D>))
        ensures
            r == step(self, event),
    {
        match self {
            Session::Counting { query } => match event {
                Event::Counted(total) => {
                    let page = clamp_page(query.page(), query.size(), total);
                    let skip = page.skip;
                    let limit = query.size();
                    (Session::Fetching { query, page, total }, Action::Fetch { skip, limit })
                },
                Event::Failed => (Session::Closed, Action::Fail(QueryError::Store)),
                Event::Fetched(_) => (Session::Closed, Action::Fail(QueryError::OutOfTurn)),
            },
            Session::Fetching { query: _, page, total } => match event {
                Event::Fetched(documents) => (
                    Session::Closed,
                    Action::Return(QueryResult { documents, page: page.number, total }),
                ),
                Event::Failed => (Session::Closed, Action::Fail(QueryError::Store)),
                Event::Counted(_) => (Session::Closed, Action::Fail(QueryError::OutOfTurn)),
            },
            Session::Closed => (Session::Closed, Action::Fail(QueryError::OutOfTurn)),
        }
    }
}

/// What a retrieval returns when the store counts `total` and then hands
/// over `documents`.
pub open spec fn outcome<D>(query: Query, total: u64, documents: Vec<D>) -> Action<D> {
    let counted = step::<D>(Session::Counting { query }, Event::Counted(total));
    step::<D>(counted.0, Event::Fetched(documents)).1
}

/// A retrieval that the store answers returns the documents as they came,
/// the clamped page and the total; the page clamps the request against the
/// total.
pub proof fn lemma_outcome<D>(query: Query, total: u64, documents: Vec<D>)
    requires
        query.wf(),
    ensures
        outcome(query, total, documents) == Action::Return(
            QueryResult {
                documents,
                page: walk_back(query.page() as int, query.size() as int, total as int) as u64,
                total,
            },
        ),
        1 <= walk_back(query.page() as int, query.size() as int, total as int) <= query.page(),
{
    query.lemma_positive();
    lemma_walk_back_bounds(query.page() as int, query.size() as int, total as int);
}

/// Repeating a retrieval against unchanged data returns the same result:
/// two requests for the same page and size that the store answers alike
/// yield the same documents, page and total.
pub proof fn lemma_repeatable<D>(first: Query, second: Query, total: u64, documents: Vec<D>)
    requires
        first.wf(),
        second.wf(),
        first.page() == second.page(),
        first.size() == second.size(),
    ensures
        outcome(first, total, documents) == outcome(second, total, documents),
        outcome(first, total, documents) is Return,
{
    lemma_outcome(first, total, documents);
    lemma_outcome(second, total, documents);
}

} // verus!

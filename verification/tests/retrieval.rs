use record_query::filter::{Clause, Field};
use record_query::paging::{Page, PageError};
use record_query::predicate::{FilterEntry, Predicate};
use record_query::retrieval::{
    sort_order, Action, Event, Query, QueryError, QueryResult, Session, COLLATION_LOCALE,
    NUMERIC_ORDERING,
};

fn entry(key: &str, value: &str) -> FilterEntry {
    FilterEntry { key: String::from(key), value: String::from(value) }
}

/// Runs a retrieval against a store that counts `total` and hands over
/// `documents`.
fn run(query: Query, total: u64, documents: Vec<&'static str>) -> Action<&'static str> {
    let (session, first) = Session::open::<&'static str>(query);
    assert_eq!(first, Action::Count);
    let (session, second) = session.advance::<&'static str>(Event::Counted(total));
    assert!(matches!(second, Action::Fetch { .. }));
    let (session, last) = session.advance(Event::Fetched(documents));
    assert_eq!(session, Session::Closed);
    last
}

#[test]
fn documents_are_ordered_by_volume_page_and_creation() {
    assert_eq!(sort_order(), vec![Field::Volume, Field::Page, Field::Created]);
}

#[test]
fn strings_are_compared_with_numeric_ordering() {
    assert_eq!(COLLATION_LOCALE, "en_US");
    assert!(NUMERIC_ORDERING);
}

#[test]
fn query_new_applies_the_defaults() {
    let query = Query::new(None, None, &Vec::new()).unwrap();
    assert_eq!(query.page(), 1);
    assert_eq!(query.size(), 20);
    assert_eq!(*query.predicate(), Predicate::All);
    assert_eq!(query, Query::new(Some(1), Some(20), &Vec::new()).unwrap());
}

#[test]
fn query_new_compiles_the_filters() {
    let query = Query::new(Some(3), Some(50), &vec![entry("volume", "7"), entry("x", "y")]).unwrap();
    assert_eq!(query.page(), 3);
    assert_eq!(query.size(), 50);
    assert_eq!(
        *query.predicate(),
        Predicate::And(vec![Clause::Equals { field: Field::Volume, value: String::from("7") }])
    );
}

#[test]
fn query_new_refuses_zeroes() {
    assert_eq!(Query::new(Some(1), Some(0), &Vec::new()), Err(PageError::ZeroSize));
    assert_eq!(Query::new(Some(0), Some(5), &Vec::new()), Err(PageError::ZeroPage));
    assert_eq!(Query::new(Some(0), Some(0), &Vec::new()), Err(PageError::ZeroSize));
    assert_eq!(Query::new(Some(0), None, &Vec::new()), Err(PageError::ZeroPage));
}

#[test]
fn a_retrieval_counts_then_fetches_then_returns() {
    let filters = vec![entry("type", "civil")];
    let query = Query::new(Some(10), Some(20), &filters).unwrap();
    let same = || Query::new(Some(10), Some(20), &filters).unwrap();
    let (session, action) = Session::open::<u8>(same());
    assert_eq!(action, Action::Count);
    assert_eq!(session, Session::Counting { query: same() });
    assert_eq!(session.predicate(), Some(query.predicate()));

    let (session, action) = session.advance::<u8>(Event::Counted(45));
    assert_eq!(action, Action::Fetch { skip: 40, limit: 20 });
    assert_eq!(
        session,
        Session::Fetching { query: same(), page: Page { number: 3, size: 20, skip: 40 }, total: 45 }
    );
    assert_eq!(session.predicate(), Some(query.predicate()));

    let (session, action) = session.advance(Event::Fetched(vec![1u8, 2, 3, 4, 5]));
    assert_eq!(
        action,
        Action::Return(QueryResult { documents: vec![1u8, 2, 3, 4, 5], page: 3, total: 45 })
    );
    assert_eq!(session, Session::Closed);
    assert_eq!(session.predicate(), None);
}

#[test]
fn an_empty_result_is_reported_from_the_first_page() {
    let query = Query::new(Some(5), Some(20), &Vec::new()).unwrap();
    let (session, _) = Session::open::<u8>(query);
    let (session, action) = session.advance::<u8>(Event::Counted(0));
    assert_eq!(action, Action::Fetch { skip: 0, limit: 20 });
    let (_, action) = session.advance(Event::Fetched(Vec::<u8>::new()));
    assert_eq!(action, Action::Return(QueryResult { documents: vec![], page: 1, total: 0 }));
}

#[test]
fn a_failed_count_is_not_an_empty_result() {
    let query = Query::new(None, None, &Vec::new()).unwrap();
    let (session, _) = Session::open::<u8>(query);
    let (session, action) = session.advance::<u8>(Event::Failed);
    assert_eq!(action, Action::Fail(QueryError::Store));
    assert_eq!(session, Session::Closed);
}

#[test]
fn a_failed_fetch_is_not_an_empty_result() {
    let query = Query::new(None, None, &Vec::new()).unwrap();
    let (session, _) = Session::open::<u8>(query);
    let (session, _) = session.advance::<u8>(Event::Counted(3));
    let (session, action) = session.advance::<u8>(Event::Failed);
    assert_eq!(action, Action::Fail(QueryError::Store));
    assert_eq!(session, Session::Closed);
}

#[test]
fn an_answer_out_of_turn_ends_the_retrieval() {
    let (session, _) = Session::open::<u8>(Query::new(None, None, &Vec::new()).unwrap());
    let (session, action) = session.advance(Event::Fetched(vec![1u8]));
    assert_eq!(action, Action::Fail(QueryError::OutOfTurn));
    assert_eq!(session, Session::Closed);

    let (session, _) = Session::open::<u8>(Query::new(None, None, &Vec::new()).unwrap());
    let (session, _) = session.advance::<u8>(Event::Counted(3));
    let (session, action) = session.advance::<u8>(Event::Counted(3));
    assert_eq!(action, Action::Fail(QueryError::OutOfTurn));

    let (session, action) = session.advance::<u8>(Event::Counted(3));
    assert_eq!(action, Action::Fail(QueryError::OutOfTurn));
    let (session, action) = session.advance::<u8>(Event::Failed);
    assert_eq!(action, Action::Fail(QueryError::OutOfTurn));
    assert_eq!(session, Session::Closed);
}

#[test]
fn repeating_a_retrieval_returns_the_same_result() {
    let filters = vec![entry("tags", "x -y"), entry("page", "4")];
    let first = run(Query::new(Some(4), Some(2), &filters).unwrap(), 5, vec!["e"]);
    let second = run(Query::new(Some(4), Some(2), &filters).unwrap(), 5, vec!["e"]);
    assert_eq!(first, second);
    assert_eq!(first, Action::Return(QueryResult { documents: vec!["e"], page: 3, total: 5 }));
}

#[test]
fn inert_filters_retrieve_what_no_filters_retrieve() {
    let inert = vec![entry("colour", "red"), entry("volume", "")];
    let with = Query::new(Some(2), Some(10), &inert).unwrap();
    let without = Query::new(Some(2), Some(10), &Vec::new()).unwrap();
    assert_eq!(with, without);
    assert_eq!(run(with, 25, vec!["k", "l"]), run(without, 25, vec!["k", "l"]));
}

use record_query::paging::{clamp_page, resolve_page, Page, PageError, DEFAULT_PAGE, DEFAULT_SIZE};

#[test]
fn clamp_walks_back_to_the_last_page_in_range() {
    let page = clamp_page(10, 20, 45);
    assert_eq!(page, Page { number: 3, size: 20, skip: 40 });
}

#[test]
fn clamp_of_an_empty_result_is_the_first_page() {
    let page = clamp_page(5, 20, 0);
    assert_eq!(page.number, 1);
    assert_eq!(page.skip, 0);
}

#[test]
fn clamp_keeps_a_page_that_is_in_range() {
    assert_eq!(clamp_page(2, 20, 45), Page { number: 2, size: 20, skip: 20 });
    assert_eq!(clamp_page(1, 20, 45), Page { number: 1, size: 20, skip: 0 });
}

#[test]
fn clamp_accepts_an_offset_equal_to_the_total() {
    assert_eq!(clamp_page(3, 20, 40), Page { number: 3, size: 20, skip: 40 });
    assert_eq!(clamp_page(4, 20, 40), Page { number: 3, size: 20, skip: 40 });
    assert_eq!(clamp_page(3, 20, 39), Page { number: 2, size: 20, skip: 20 });
}

#[test]
fn clamp_offset_never_passes_the_total() {
    for total in 0..60u64 {
        for size in 1..7u64 {
            for requested in 1..15u64 {
                let page = clamp_page(requested, size, total);
                assert!(page.number >= 1 && page.number <= requested);
                assert_eq!(page.skip, (page.number - 1) * size);
                assert!(page.skip <= total);
                assert!(page.number == requested || page.number * size > total);
            }
        }
    }
}

#[test]
fn clamp_survives_the_largest_inputs() {
    let page = clamp_page(u64::MAX, u64::MAX, u64::MAX);
    assert_eq!(page, Page { number: 2, size: u64::MAX, skip: u64::MAX });
    let page = clamp_page(u64::MAX, 1, u64::MAX);
    assert_eq!(page, Page { number: u64::MAX, size: 1, skip: u64::MAX - 1 });
    let page = clamp_page(u64::MAX, 2, 7);
    assert_eq!(page, Page { number: 4, size: 2, skip: 6 });
}

#[test]
fn resolve_page_applies_the_defaults() {
    assert_eq!(DEFAULT_PAGE, 1);
    assert_eq!(DEFAULT_SIZE, 20);
    assert_eq!(resolve_page(None, None, 100), Ok(Page { number: 1, size: 20, skip: 0 }));
    assert_eq!(resolve_page(Some(3), None, 100), Ok(Page { number: 3, size: 20, skip: 40 }));
    assert_eq!(resolve_page(None, Some(7), 100), Ok(Page { number: 1, size: 7, skip: 0 }));
}

#[test]
fn resolve_page_clamps_like_the_walk_backwards() {
    assert_eq!(resolve_page(Some(5), Some(20), 0), Ok(Page { number: 1, size: 20, skip: 0 }));
    assert_eq!(resolve_page(Some(10), Some(20), 45), Ok(Page { number: 3, size: 20, skip: 40 }));
}

#[test]
fn resolve_page_refuses_a_zero_size() {
    assert_eq!(resolve_page(Some(1), Some(0), 10), Err(PageError::ZeroSize));
    assert_eq!(resolve_page(None, Some(0), 0), Err(PageError::ZeroSize));
    assert_eq!(resolve_page(Some(0), Some(0), 10), Err(PageError::ZeroSize));
}

#[test]
fn resolve_page_refuses_a_zero_page() {
    assert_eq!(resolve_page(Some(0), Some(20), 10), Err(PageError::ZeroPage));
    assert_eq!(resolve_page(Some(0), None, 0), Err(PageError::ZeroPage));
}

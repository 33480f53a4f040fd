//! Page requests and the backward clamp of an out-of-range page number.

use vstd::arithmetic::div_mod::{lemma_fundamental_div_mod, lemma_mod_bound};
use vstd::arithmetic::mul::{
    lemma_mul_inequality, lemma_mul_is_commutative, lemma_mul_is_distributive_add_other_way,
};
use vstd::prelude::*;

verus! {

/// Page number used when the caller names none.
pub const DEFAULT_PAGE: u64 = 1;

/// Page size used when the caller names none.
pub const DEFAULT_SIZE: u64 = 20;

/// Why a page request is refused at the boundary.
#[derive(Clone, Copy, Debug, PartialEq, Eq, Structural)]
pub enum PageError {
    /// Pages are numbered from one.
    ZeroPage,
    /// A page holds at least one document.
    ZeroSize,
}

/// The offset of the first document of `page` when every page holds `size`.
pub open spec fn skip_of(page: int, size: int) -> int {
    (page - 1) * size
}

/// The page at which the walk backwards from `page` stops: the first page,
/// counting down, whose offset does not pass `total`.
pub open spec fn walk_back(page: int, size: int, total: int) -> int
    decreases page,
{
    if page > 1 && skip_of(page, size) > total {
        walk_back(page - 1, size, total)
    } else {
        page
    }
}

/// A page within range: the number to report, the size asked for and the
/// offset to fetch from.
#[derive(Clone, Copy, Debug, PartialEq, Eq, Structural)]
pub struct Page {
    pub number: u64,
    pub size: u64,
    pub skip: u64,
}

impl Page {
    /// Number and size are positive and the offset is that of the number.
    pub open spec fn wf(self) -> bool {
        &&& self.number >= 1
        &&& self.size >= 1
        &&& self.skip == skip_of(self.number as int, self.size as int)
    }

    /// `self` is the clamp of the request `(page, size)` against `total`:
    /// the greatest page not above `page` whose offset does not pass `total`.
    pub open spec fn clamps(self, page: int, size: int, total: int) -> bool {
        &&& self.wf()
        &&& self.size == size
        &&& self.number <= page
        &&& self.skip <= total
        &&& (self.number == page || self.number * size > total)
    }
}

/// A request with the defaults standing in for what is absent: the page and
/// the size, or the refusal of a zero, of the size before the page.
pub open spec fn requested(page: Option<u64>, size: Option<u64>) -> Result<(u64, u64), PageError> {
    let p = match page {
        Some(p) => p,
        None => DEFAULT_PAGE,
    };
    let s = match size {
        Some(s) => s,
        None => DEFAULT_SIZE,
    };
    if s == 0 {
        Err(PageError::ZeroSize)
    } else if p == 0 {
        Err(PageError::ZeroPage)
    } else {
        Ok((p, s))
    }
}

/// The quotient `total / size` brackets `total` between two multiples of
/// `size`.
proof fn lemma_quotient_brackets(total: int, size: int)
    requires
        total >= 0,
        size >= 1,
    ensures
        0 <= total / size,
        (total / size) * size <= total,
        total < (total / size + 1) * size,
{
    let q = total / size;
    lemma_fundamental_div_mod(total, size);
    lemma_mod_bound(total, size);
    lemma_mul_is_commutative(size, q);
    lemma_mul_is_distributive_add_other_way(size, q, 1);
    if q < 0 {
        lemma_mul_inequality(q, -1, size);
    }
}

/// The walk backwards stops at `page` when its offset is within `total`, and
/// otherwise one page past the last full one.
pub proof fn lemma_walk_back_closed_form(page: int, size: int, total: int)
    requires
        page >= 1,
        size >= 1,
        total >= 0,
    ensures
        walk_back(page, size, total) == if page - 1 <= total / size {
            page
        } else {
            total / size + 1
        },
    decreases page,
{
    let q = total / size;
    lemma_quotient_brackets(total, size);
    if page - 1 <= q {
        lemma_mul_inequality(page - 1, q, size);
    } else {
        lemma_mul_inequality(q + 1, page - 1, size);
        lemma_walk_back_closed_form(page - 1, size, total);
    }
}

/// The walk backwards ends on a page from the first to the one asked for.
pub proof fn lemma_walk_back_bounds(page: int, size: int, total: int)
    requires
        page >= 1,
        size >= 1,
        total >= 0,
    ensures
        1 <= walk_back(page, size, total) <= page,
{
    lemma_walk_back_closed_form(page, size, total);
    lemma_quotient_brackets(total, size);
}

/// Walks `page` back until its offset is within `total`.
pub fn clamp_page(page: u64, size: u64, total: u64) -> (r: Page)
    requires
        page >= 1,
        size >= 1,
    ensures
        r.clamps(page as int, size as int, total as int),
        r.number == walk_back(page as int, size as int, total as int),
{
    let full: u64 = total / size;
    proof {
        lemma_walk_back_closed_form(page as int, size as int, total as int);
        lemma_quotient_brackets(total as int, size as int);
    }
    let number: u64 = if page - 1 <= full {
        page
    } else {
        full + 1
    };
    proof {
        lemma_mul_inequality(number as int - 1, full as int, size as int);
    }
    let skip: u64 = (number - 1) * size;
    Page { number, size, skip }
}

/// Applies the defaults to an optional page and size and refuses a zero in
/// either.
pub fn request(page: Option<u64>, size: Option<u64>) -> (r: Result<(u64, u64), PageError>)
    ensures
        r == requested(page, size),
        r is Ok ==> r->Ok_0.0 >= 1 && r->Ok_0.1 >= 1,
{
    let p: u64 = match page {
        Some(p) => p,
        None => DEFAULT_PAGE,
    };
    let s: u64 = match size {
        Some(s) => s,
        None => DEFAULT_SIZE,
    };
    if s == 0 {
        Err(PageError::ZeroSize)
    } else if p == 0 {
        Err(PageError::ZeroPage)
    } else {
        Ok((p, s))
    }
}

/// Applies the defaults to an optional page and size, refuses a zero in
/// either, and clamps the page against `total`.
pub fn resolve_page(page: Option<u64>, size: Option<u64>, total: u64) -> (r: Result<
    Page,
    PageError,
>)
    ensures
        match requested(page, size) {
            Ok(request) => {
                &&& r is Ok
                &&& r->Ok_0.clamps(request.0 as int, request.1 as int, total as int)
                &&& r->Ok_0.number == walk_back(request.0 as int, request.1 as int, total as int)
            },
            Err(e) => r == Err::<Page, PageError>(e),
        },
{
    match request(page, size) {
        Ok((page, size)) => Ok(clamp_page(page, size, total)),
        Err(e) => Err(e),
    }
}

/// A request has one clamp: two pages that both clamp the same request
/// against the same total are equal.
pub proof fn lemma_clamp_unique(a: Page, b: Page, page: int, size: int, total: int)
    requires
        a.clamps(page, size, total),
        b.clamps(page, size, total),
    ensures
        a == b,
{
    if a.number < b.number {
        lemma_mul_inequality(a.number as int, b.number as int - 1, size);
    }
    if b.number < a.number {
        lemma_mul_inequality(b.number as int, a.number as int - 1, size);
    }
}

/// After clamping, the offset never passes the total, and an empty result
/// set is shown from its first page.
pub proof fn lemma_clamp_in_range(r: Page, page: int, size: int, total: int)
    requires
        r.clamps(page, size, total),
        total >= 0,
    ensures
        r.skip <= total,
        total == 0 ==> r.number == 1 && r.skip == 0,
{
    if total == 0 && r.number > 1 {
        lemma_mul_inequality(1, r.number as int - 1, size);
    }
}

} // verus!

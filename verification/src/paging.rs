//! Pagination: how many pages a list of rows needs, which rows a page shows,
//! and which page comes before or after another.

use vstd::prelude::*;

verus! {

/// The number of pages that `total` rows fill at `capacity` rows to a page:
/// `total / capacity`, rounded up. Without capacity there is no page.
pub open spec fn page_count_of(total: nat, capacity: nat) -> nat {
    if capacity == 0 {
        0
    } else {
        ((total + capacity - 1) / (capacity as int)) as nat
    }
}

/// The page on which row `row` lies. Without capacity everything is on page 0.
pub open spec fn page_of(row: nat, capacity: nat) -> nat {
    if capacity == 0 {
        0
    } else {
        row / capacity
    }
}

/// The rows of page `page`, as a half-open range cut off at `total`.
pub open spec fn window_of(page: nat, capacity: nat, total: nat) -> (nat, nat) {
    let start = if page * capacity < total {
        page * capacity
    } else {
        total
    };
    let end = if start + capacity < total {
        start + capacity
    } else {
        total
    };
    (start, end)
}

/// Whether row `row` is one of the rows of page `page`.
pub open spec fn in_window(row: nat, page: nat, capacity: nat, total: nat) -> bool {
    window_of(page, capacity, total).0 <= row < window_of(page, capacity, total).1
}

/// The page before `page` among `pages` pages; the first page wraps to the last.
pub open spec fn prev_page_of(page: nat, pages: nat) -> nat {
    if page == 0 {
        if pages == 0 {
            0
        } else {
            (pages - 1) as nat
        }
    } else {
        (page - 1) as nat
    }
}

/// The page after `page` among `pages` pages; the last page wraps to the first.
pub open spec fn next_page_of(page: nat, pages: nat) -> nat {
    if page + 1 < pages {
        page + 1
    } else {
        0
    }
}

/// The page count is the least number of pages that holds every row: one
/// page fewer leaves a row over.
pub proof fn lemma_page_count_is_ceiling(total: nat, capacity: nat)
    requires
        capacity > 0,
    ensures
        total <= page_count_of(total, capacity) * capacity,
        total > 0 ==> (page_count_of(total, capacity) - 1) * capacity < total,
        total == 0 ==> page_count_of(total, capacity) == 0,
{
    let p = page_count_of(total, capacity) as int;
    let t = total as int;
    let c = capacity as int;
    assert(p == (t + c - 1) / c);
    assert(t <= p * c && (t > 0 ==> (p - 1) * c < t) && (t == 0 ==> p == 0))
        by (nonlinear_arith)
        requires
            c > 0,
            t >= 0,
            p == (t + c - 1) / c,
    ;
}

/// A row that exists lies on a page that exists, and within that page's rows.
pub proof fn lemma_page_of_row(row: nat, capacity: nat, total: nat)
    requires
        capacity > 0,
        row < total,
    ensures
        page_of(row, capacity) < page_count_of(total, capacity),
        in_window(row, page_of(row, capacity), capacity, total),
        forall|page: nat| in_window(row, page, capacity, total) ==> page == page_of(row, capacity),
{
    let r = row as int;
    let c = capacity as int;
    let t = total as int;
    let q = r / c;
    lemma_page_count_is_ceiling(total, capacity);
    let p = page_count_of(total, capacity) as int;
    assert(q * c <= r < q * c + c && q >= 0) by (nonlinear_arith)
        requires
            c > 0,
            r >= 0,
            q == r / c,
    ;
    assert(q < p) by (nonlinear_arith)
        requires
            q * c <= r,
            r < t,
            t <= p * c,
            c > 0,
    ;
    assert forall|page: nat| in_window(row, page, capacity, total) implies page == page_of(
        row,
        capacity,
    ) by {
        let g = page as int;
        assert(g * c <= r < g * c + c);
        assert(g == q) by (nonlinear_arith)
            requires
                g * c <= r < g * c + c,
                q * c <= r < q * c + c,
                c > 0,
        ;
    }
}

/// The first row of a page that exists is a row that exists.
pub proof fn lemma_page_start_in_range(page: nat, capacity: nat, total: nat)
    requires
        capacity > 0,
        page < page_count_of(total, capacity),
    ensures
        page * capacity < total,
        page_of(page * capacity, capacity) == page,
{
    lemma_page_count_is_ceiling(total, capacity);
    let p = page_count_of(total, capacity) as int;
    let g = page as int;
    let c = capacity as int;
    let t = total as int;
    assert(g * c < t) by (nonlinear_arith)
        requires
            g <= p - 1,
            (p - 1) * c < t,
            c > 0,
            g >= 0,
    ;
    assert((g * c) / c == g) by (nonlinear_arith)
        requires
            c > 0,
            g >= 0,
    ;
}

/// Computes [`page_count_of`].
pub fn page_count(total: usize, capacity: usize) -> (pages: usize)
    ensures
        pages == page_count_of(total as nat, capacity as nat),
{
    if capacity == 0 {
        0
    } else {
        let whole: usize = total / capacity;
        let rest: usize = total % capacity;
        proof {
            let t = total as int;
            let c = capacity as int;
            assert((t + c - 1) / c == if t % c == 0 {
                t / c
            } else {
                t / c + 1
            }) by (nonlinear_arith)
                requires
                    c > 0,
                    t >= 0,
            ;
            assert(t % c != 0 ==> t / c < t) by (nonlinear_arith)
                requires
                    c > 0,
                    t >= 0,
            ;
        }
        if rest == 0 {
            whole
        } else {
            whole + 1
        }
    }
}

/// Computes [`window_of`]: the first row of `page` and the row after its last.
pub fn window(page: usize, capacity: usize, total: usize) -> (w: (usize, usize))
    ensures
        w.0 == window_of(page as nat, capacity as nat, total as nat).0,
        w.1 == window_of(page as nat, capacity as nat, total as nat).1,
        w.0 <= w.1 <= total,
{
    let start: usize = match page.checked_mul(capacity) {
        Some(s) => if s < total {
            s
        } else {
            total
        },
        None => total,
    };
    let end: usize = if total - start > capacity {
        start + capacity
    } else {
        total
    };
    (start, end)
}

/// Computes [`prev_page_of`].
pub fn prev_page(page: usize, pages: usize) -> (p: usize)
    ensures
        p == prev_page_of(page as nat, pages as nat),
{
    if page == 0 {
        if pages == 0 {
            0
        } else {
            pages - 1
        }
    } else {
        page - 1
    }
}

/// Computes [`next_page_of`].
pub fn next_page(page: usize, pages: usize) -> (p: usize)
    ensures
        p == next_page_of(page as nat, pages as nat),
{
    if page < pages && page + 1 < pages {
        page + 1
    } else {
        0
    }
}

} // verus!

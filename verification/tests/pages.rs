use multiselect::paging::{next_page, page_count, prev_page, window};

#[test]
fn page_count_rounds_up() {
    assert_eq!(page_count(5, 2), 3);
    assert_eq!(page_count(4, 2), 2);
    assert_eq!(page_count(1, 10), 1);
    assert_eq!(page_count(10, 10), 1);
    assert_eq!(page_count(11, 10), 2);
    assert_eq!(page_count(7, 7), 1);
    assert_eq!(page_count(3, 1), 3);
}

#[test]
fn page_count_at_the_edges() {
    assert_eq!(page_count(0, 3), 0);
    assert_eq!(page_count(5, 0), 0);
    assert_eq!(page_count(0, 0), 0);
    assert_eq!(page_count(usize::MAX, 1), usize::MAX);
    assert_eq!(page_count(usize::MAX, usize::MAX), 1);
    assert_eq!(page_count(usize::MAX, 2), usize::MAX / 2 + 1);
}

#[test]
fn window_is_half_open_and_cut_off() {
    assert_eq!(window(0, 2, 5), (0, 2));
    assert_eq!(window(1, 2, 5), (2, 4));
    assert_eq!(window(2, 2, 5), (4, 5));
    assert_eq!(window(3, 2, 5), (5, 5));
    assert_eq!(window(0, 5, 5), (0, 5));
    assert_eq!(window(0, 9, 5), (0, 5));
}

#[test]
fn window_at_the_edges() {
    assert_eq!(window(0, 0, 5), (0, 0));
    assert_eq!(window(0, 5, 0), (0, 0));
    assert_eq!(window(usize::MAX, 2, 5), (5, 5));
    assert_eq!(window(1, usize::MAX, 5), (5, 5));
    assert_eq!(window(0, usize::MAX, usize::MAX), (0, usize::MAX));
}

#[test]
fn prev_page_wraps_to_the_last() {
    assert_eq!(prev_page(0, 3), 2);
    assert_eq!(prev_page(2, 3), 1);
    assert_eq!(prev_page(1, 3), 0);
    assert_eq!(prev_page(0, 1), 0);
    assert_eq!(prev_page(0, 0), 0);
}

#[test]
fn next_page_wraps_to_the_first() {
    assert_eq!(next_page(0, 3), 1);
    assert_eq!(next_page(1, 3), 2);
    assert_eq!(next_page(2, 3), 0);
    assert_eq!(next_page(0, 1), 0);
    assert_eq!(next_page(0, 0), 0);
    assert_eq!(next_page(usize::MAX, usize::MAX), 0);
}

#[test]
fn every_row_lies_in_the_window_of_its_page() {
    for total in 1..20usize {
        for capacity in 1..8usize {
            let pages = page_count(total, capacity);
            assert!((pages - 1) * capacity < total && total <= pages * capacity);
            for row in 0..total {
                let page = row / capacity;
                assert!(page < pages);
                let (start, end) = window(page, capacity, total);
                assert!(start <= row && row < end);
            }
        }
    }
}

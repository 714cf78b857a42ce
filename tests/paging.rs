use astinus::{Pager, PAGE_SIZE};

#[test]
fn pagination_scenario_of_2500_rows() {
    let mut pager = Pager::with_page_size(2500, 1000);
    assert_eq!(pager.get_page_count(), 3);
    assert!(pager.go_to_page(5));
    assert_eq!(pager.get_current_page(), 3);
    assert!(pager.go_to_page(2));
    assert_eq!(pager.get_first_row_offset(), 1000);
    assert_eq!(pager.get_last_row_offset(), 1999);
}

#[test]
fn default_page_size_is_a_thousand() {
    let pager = Pager::new(2500);
    assert_eq!(PAGE_SIZE, 1000);
    assert_eq!(pager.get_page_size(), 1000);
    assert_eq!(pager.get_page_count(), 3);
    assert_eq!(pager.get_current_page(), 1);
    assert_eq!(pager.get_row_count(), 2500);
}

#[test]
fn exact_multiple_has_trailing_empty_page() {
    let mut pager = Pager::with_page_size(2000, 1000);
    assert_eq!(pager.get_page_count(), 3);
    pager.go_to_page(3);
    assert_eq!(pager.get_first_row_offset(), 2000);
    assert_eq!(pager.get_last_row_offset(), 1999);
}

#[test]
fn last_page_ends_at_last_row() {
    let mut pager = Pager::with_page_size(2500, 1000);
    pager.go_to_page(3);
    assert_eq!(pager.get_first_row_offset(), 2000);
    assert_eq!(pager.get_last_row_offset(), 2499);
}

#[test]
fn empty_rows_give_one_empty_page() {
    let pager = Pager::new(0);
    assert_eq!(pager.get_page_count(), 1);
    assert_eq!(pager.get_first_row_offset(), 0);
    assert_eq!(pager.get_last_row_offset(), -1);
}

#[test]
fn go_to_same_page_is_a_no_op() {
    let mut pager = Pager::with_page_size(2500, 1000);
    assert!(!pager.go_to_page(1));
    assert!(!pager.go_to_page(-7));
    assert_eq!(pager.get_current_page(), 1);
}

#[test]
fn next_and_previous_stop_at_the_ends() {
    let mut pager = Pager::with_page_size(2500, 1000);
    assert!(!pager.go_to_previous_page());
    assert!(pager.go_to_next_page());
    assert!(pager.go_to_next_page());
    assert_eq!(pager.get_current_page(), 3);
    assert!(!pager.go_to_next_page());
    assert!(pager.go_to_previous_page());
    assert_eq!(pager.get_current_page(), 2);
}

#[test]
fn fewer_rows_move_current_page_to_last() {
    let mut pager = Pager::with_page_size(2500, 1000);
    pager.go_to_page(3);
    pager.set_row_count(1200);
    assert_eq!(pager.get_page_count(), 2);
    assert_eq!(pager.get_current_page(), 2);
    pager.set_row_count(5000);
    assert_eq!(pager.get_current_page(), 2);
}

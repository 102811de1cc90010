use stammw_blog::pagination::{PaginationContext, PaginationParams};

fn check_context(page: u32, item_per_page: u32, total_items: u32) -> PaginationContext {
    let pagination = PaginationParams {
        page: page,
        items_per_page: Some(item_per_page),
    };
    pagination.context(total_items)
}

#[test]
fn one_page_has_no_next_no_prev() {
    let context = check_context(1, 5, 4);
    assert!(context.next.is_none());
    assert!(context.prev.is_none());
    let context = check_context(1, 5, 5);
    assert!(context.next.is_none());
    assert!(context.prev.is_none());
}

#[test]
fn pages_first_has_next_but_no_prev() {
    let context = check_context(1, 5, 6);
    assert_eq!(context.next, Some(2));
    assert!(context.prev.is_none());
}

#[test]
fn pages_last_has_prev_but_no_next() {
    let context = check_context(2, 5, 6);
    assert_eq!(context.prev, Some(1));
    assert!(context.next.is_none());
    let context = check_context(4, 5, 18);
    assert_eq!(context.prev, Some(3));
    assert!(context.next.is_none());
}

#[test]
fn pages_middle_has_prev_and_next() {
    let context = check_context(3, 5, 18);
    assert_eq!(context.next, Some(4));
    assert_eq!(context.prev, Some(2));
    let context = check_context(2, 5, 15);
    assert_eq!(context.next, Some(3));
    assert_eq!(context.prev, Some(1));
}

#[test]
fn current_stays_unchanged_inside_bounds() {
    assert_eq!(check_context(3, 5, 18).current, 3);
    assert_eq!(check_context(1, 5, 18).current, 1);
    assert_eq!(check_context(1, 5, 5).current, 1);
    assert_eq!(check_context(1, 5, 0).current, 1);
}

#[test]
fn current_set_to_first_when_outside_bounds_before() {
    assert_eq!(check_context(0, 5, 18).current, 1);
    assert_eq!(check_context(0, 5, 5).current, 1);
    assert_eq!(check_context(0, 5, 0).current, 1);
}

#[test]
fn current_set_to_last_when_outside_bounds_after() {
    assert_eq!(check_context(6, 5, 18).current, 4);
    assert_eq!(check_context(2, 5, 5).current, 1);
    assert_eq!(check_context(2, 5, 0).current, 1);
}

#[test]
fn page_list_has_all_values() {
    assert_eq!(check_context(2, 5, 18).pages, [1, 2, 3, 4]);
    assert_eq!(check_context(1, 5, 6).pages, [1, 2]);
    assert_eq!(check_context(1, 5, 1).pages, [1]);
    assert_eq!(check_context(1, 5, 5).pages, [1]);
    assert_eq!(check_context(1, 5, 0).pages, [1]);
}

#[test]
fn default_params_use_five_items_per_page() {
    let params = PaginationParams::default();
    assert_eq!(params.page, 1);
    assert_eq!(params.items_per_page, Some(5));
    let context = params.context(11);
    assert_eq!(context.pages, [1, 2, 3]);
    assert_eq!(context.next, Some(2));
}

#[test]
fn missing_items_per_page_means_five() {
    let params = PaginationParams { page: 2, items_per_page: None };
    let context = params.context(10);
    assert_eq!(context.pages, [1, 2]);
    assert_eq!(context.current, 2);
    assert_eq!(context.prev, Some(1));
    assert!(context.next.is_none());
}

#[test]
fn prev_follows_the_requested_page_even_past_the_end() {
    let context = check_context(6, 5, 18);
    assert_eq!(context.current, 4);
    assert_eq!(context.prev, Some(5));
    assert!(context.next.is_none());
}

#[test]
fn pages_cover_every_item() {
    for total in 0..40u32 {
        for per_page in 1..7u32 {
            let pages = check_context(1, per_page, total).pages.len() as u32;
            assert!(pages >= 1);
            assert!(pages * per_page >= total);
            if total > 0 {
                assert!((pages - 1) * per_page < total);
            }
        }
    }
}

use hachi::ui::consts::MEMORY_MAX_DISPLAY_ITEMS;
use hachi::ui::debug::{memory_page_range, next_memory_page, previous_memory_page};

#[test]
fn previous_page_stops_at_first() {
    assert_eq!(previous_memory_page(0), 0);
    assert_eq!(previous_memory_page(1), 0);
    assert_eq!(previous_memory_page(7), 6);
}

#[test]
fn next_page_stops_past_end_of_memory() {
    let len = 4 * MEMORY_MAX_DISPLAY_ITEMS;
    assert_eq!(next_memory_page(0, len), 1);
    assert_eq!(next_memory_page(3, len), 4);
    assert_eq!(next_memory_page(4, len), 4);
}

#[test]
fn page_ranges() {
    let len = 4 * MEMORY_MAX_DISPLAY_ITEMS + 3;
    assert_eq!(memory_page_range(0, len), (0, MEMORY_MAX_DISPLAY_ITEMS));
    assert_eq!(
        memory_page_range(4, len),
        (4 * MEMORY_MAX_DISPLAY_ITEMS, 4 * MEMORY_MAX_DISPLAY_ITEMS + 3)
    );
    assert_eq!(memory_page_range(5, len), (len, len));
}

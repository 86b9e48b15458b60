use vstd::prelude::*;

use super::consts::MEMORY_MAX_DISPLAY_ITEMS;

verus! {

/// The page of the memory view shown after "<" is pressed on `page`: the one
/// before, or the first page again.
pub fn previous_memory_page(page: usize) -> (previous: usize)
    ensures
        previous == if page == 0 { 0 } else { page - 1 },
{
    if page == 0 {
        return page;
    }
    page - 1
}

/// The page of the memory view shown after ">" is pressed on `page`, for a
/// memory of `memory_len` cells: the next one, unless the next one would
/// start past the end of memory.
pub fn next_memory_page(page: usize, memory_len: usize) -> (next: usize)
    requires
        (page + 1) * MEMORY_MAX_DISPLAY_ITEMS <= usize::MAX,
    ensures
        next == if (page + 1) * MEMORY_MAX_DISPLAY_ITEMS > memory_len { page as int } else { page + 1 },
{
    if (page + 1) * MEMORY_MAX_DISPLAY_ITEMS > memory_len {
        return page;
    }
    page + 1
}

/// The addresses that page `page` of the memory view lists, for a memory of
/// `memory_len` cells: from `start` up to, not including, `end`.
pub fn memory_page_range(page: usize, memory_len: usize) -> (range: (usize, usize))
    requires
        page * MEMORY_MAX_DISPLAY_ITEMS <= usize::MAX,
    ensures
        range.0 == if page * MEMORY_MAX_DISPLAY_ITEMS < memory_len {
            page * MEMORY_MAX_DISPLAY_ITEMS
        } else {
            memory_len as int
        },
        range.1 == if page * MEMORY_MAX_DISPLAY_ITEMS + MEMORY_MAX_DISPLAY_ITEMS < memory_len {
            page * MEMORY_MAX_DISPLAY_ITEMS + MEMORY_MAX_DISPLAY_ITEMS
        } else {
            memory_len as int
        },
{
    let first = page * MEMORY_MAX_DISPLAY_ITEMS;
    if first >= memory_len {
        return (memory_len, memory_len);
    }
    let left = memory_len - first;
    if left > MEMORY_MAX_DISPLAY_ITEMS {
        (first, first + MEMORY_MAX_DISPLAY_ITEMS)
    } else {
        (first, memory_len)
    }
}

} // verus!

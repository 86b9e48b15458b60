use vstd::prelude::*;

verus! {

/// How many memory cells one page of the debug memory view lists.
pub const MEMORY_MAX_DISPLAY_ITEMS: usize = 64;

} // verus!

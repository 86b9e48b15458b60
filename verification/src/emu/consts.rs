use vstd::prelude::*;

verus! {

/// Size of the addressable memory, in bytes.
pub const MEM_SIZE: usize = 4096;

/// Address at which programs are loaded.
pub const START_ADDR: usize = 0x200;

/// Address at which the built-in font is stored.
pub const FONTSET_START_ADDR: usize = 0x50;

} // verus!

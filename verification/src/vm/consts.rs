use vstd::prelude::*;

verus! {

/// Size of the addressable memory, in bytes.
pub const MEM_SIZE: usize = 4096;

/// Address at which the built-in hexadecimal font is stored.
pub const FONTSET_START_ADDR: usize = 0x50;

/// Number of bytes of the built-in font: sixteen glyphs of five rows each.
pub const FONTSET_SIZE: usize = 80;

/// Address at which programs are loaded and execution starts.
pub const PROG_MEM_START_ADDR: usize = 0x200;

/// Width of the monochrome display, in pixels.
pub const DISPLAY_WIDTH: usize = 64;

/// Height of the monochrome display, in pixels.
pub const DISPLAY_HEIGHT: usize = 32;

/// Nesting depth that the call stack is sized for when it is created.
pub const STACK_SIZE: usize = 16;

/// The built-in hexadecimal font: glyphs 0 to F, five rows of four pixels each,
/// the pixels in the high nibble of each byte.
pub const FONTSET: [u8; FONTSET_SIZE] = [
    0xF0, 0x90, 0x90, 0x90, 0xF0, // 0
    0x20, 0x60, 0x20, 0x20, 0x70, // 1
    0xF0, 0x10, 0xF0, 0x80, 0xF0, // 2
    0xF0, 0x10, 0xF0, 0x10, 0xF0, // 3
    0x90, 0x90, 0xF0, 0x10, 0x10, // 4
    0xF0, 0x80, 0xF0, 0x10, 0xF0, // 5
    0xF0, 0x80, 0xF0, 0x90, 0xF0, // 6
    0xF0, 0x10, 0x20, 0x40, 0x40, // 7
    0xF0, 0x90, 0xF0, 0x90, 0xF0, // 8
    0xF0, 0x90, 0xF0, 0x10, 0xF0, // 9
    0xF0, 0x90, 0xF0, 0x90, 0x90, // A
    0xE0, 0x90, 0xE0, 0x90, 0xE0, // B
    0xF0, 0x80, 0x80, 0x80, 0xF0, // C
    0xE0, 0x90, 0x90, 0x90, 0xE0, // D
    0xF0, 0x80, 0xF0, 0x80, 0xF0, // E
    0xF0, 0x80, 0xF0, 0x80, 0x80, // F
];

} // verus!

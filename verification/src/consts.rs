use vstd::prelude::*;

verus! {

/// Number of addressable bytes.
pub const MEMORY_SIZE: usize = 4096;

/// Number of pixels in one display row.
pub const DISPLAY_WIDTH: usize = 64;

/// Number of display rows.
pub const DISPLAY_HEIGHT: usize = 32;

/// Number of return addresses the call stack can hold.
pub const STACK_SIZE: usize = 16;

/// Number of general registers.
pub const REGISTER_SIZE: usize = 16;

/// Number of keys on the pad.
pub const KEYPAD_SIZE: usize = 16;

/// Address at which a program image is placed and at which execution starts.
pub const PROGRAM_START: usize = 0x200;

/// Largest program image that fits between `PROGRAM_START` and the end of memory.
pub const MAX_ROM_SIZE: usize = 3584;

/// Number of bytes in the glyph of one hexadecimal digit.
pub const GLYPH_SIZE: usize = 5;

/// Number of bytes in `FONTSET`.
pub const FONTSET_SIZE: usize = 80;

/// Glyphs of the sixteen hexadecimal digits, five rows of four pixels each,
/// kept in the high nibble of every byte.
pub const FONTSET: [u8; 80] = [
    0xF0, 0x90, 0x90, 0x90, 0xF0,
    0x20, 0x60, 0x20, 0x20, 0x70,
    0xF0, 0x10, 0xF0, 0x80, 0xF0,
    0xF0, 0x10, 0xF0, 0x10, 0xF0,
    0x90, 0x90, 0xF0, 0x10, 0x10,
    0xF0, 0x80, 0xF0, 0x10, 0xF0,
    0xF0, 0x80, 0xF0, 0x90, 0xF0,
    0xF0, 0x10, 0x20, 0x40, 0x40,
    0xF0, 0x90, 0xF0, 0x90, 0xF0,
    0xF0, 0x90, 0xF0, 0x10, 0xF0,
    0xF0, 0x90, 0xF0, 0x90, 0x90,
    0xE0, 0x90, 0xE0, 0x90, 0xE0,
    0xF0, 0x80, 0x80, 0x80, 0xF0,
    0xE0, 0x90, 0x90, 0x90, 0xE0,
    0xF0, 0x80, 0xF0, 0x80, 0xF0,
    0xF0, 0x80, 0xF0, 0x80, 0x80,
];

} // verus!

//! The built-in glyph table: one 5-byte sprite per hexadecimal digit,
//! preloaded into the bottom of memory at reset. Each row byte is a
//! bitmap whose high four bits draw the digit.

use vstd::prelude::*;

verus! {

/// The canonical 5-row sprite pattern for digit `d` in `[0, 16)`.
pub open spec fn glyph(d: int) -> Seq<u8> {
    if d == 0x0 {
        seq![0xF0, 0x90, 0x90, 0x90, 0xF0]
    } else if d == 0x1 {
        seq![0x20, 0x60, 0x20, 0x20, 0x70]
    } else if d == 0x2 {
        seq![0xF0, 0x10, 0xF0, 0x80, 0xF0]
    } else if d == 0x3 {
        seq![0xF0, 0x10, 0xF0, 0x10, 0xF0]
    } else if d == 0x4 {
        seq![0x90, 0x90, 0xF0, 0x10, 0x10]
    } else if d == 0x5 {
        seq![0xF0, 0x80, 0xF0, 0x10, 0xF0]
    } else if d == 0x6 {
        seq![0xF0, 0x80, 0xF0, 0x90, 0xF0]
    } else if d == 0x7 {
        seq![0xF0, 0x10, 0x20, 0x40, 0x40]
    } else if d == 0x8 {
        seq![0xF0, 0x90, 0xF0, 0x90, 0xF0]
    } else if d == 0x9 {
        seq![0xF0, 0x90, 0xF0, 0x10, 0xF0]
    } else if d == 0xA {
        seq![0xF0, 0x90, 0xF0, 0x90, 0x90]
    } else if d == 0xB {
        seq![0xE0, 0x90, 0xE0, 0x90, 0xE0]
    } else if d == 0xC {
        seq![0xF0, 0x80, 0x80, 0x80, 0xF0]
    } else if d == 0xD {
        seq![0xE0, 0x90, 0x90, 0x90, 0xE0]
    } else if d == 0xE {
        seq![0xF0, 0x80, 0xF0, 0x80, 0xF0]
    } else {
        seq![0xF0, 0x80, 0xF0, 0x80, 0x80]
    }
}

/// The byte at offset `i` of the glyph table as laid out in memory:
/// digit `i / 5`, row `i % 5`.
pub open spec fn font_byte(i: int) -> u8 {
    glyph(i / 5)[i % 5]
}

/// The glyph table occupies the first 80 bytes of `mem`, digit by digit.
pub open spec fn fontset_loaded(mem: Seq<u8>) -> bool {
    forall|i: int| 0 <= i < 80 ==> #[trigger] mem[i] == font_byte(i)
}

/// Row `k` of the sprite for digit `d`.
pub fn glyph_row(d: usize, k: usize) -> (b: u8)
    requires
        d < 16,
        k < 5,
    ensures
        b == glyph(d as int)[k as int],
{
    let row: [u8; 5] = match d {
        0x0 => [0xF0, 0x90, 0x90, 0x90, 0xF0],
        0x1 => [0x20, 0x60, 0x20, 0x20, 0x70],
        0x2 => [0xF0, 0x10, 0xF0, 0x80, 0xF0],
        0x3 => [0xF0, 0x10, 0xF0, 0x10, 0xF0],
        0x4 => [0x90, 0x90, 0xF0, 0x10, 0x10],
        0x5 => [0xF0, 0x80, 0xF0, 0x10, 0xF0],
        0x6 => [0xF0, 0x80, 0xF0, 0x90, 0xF0],
        0x7 => [0xF0, 0x10, 0x20, 0x40, 0x40],
        0x8 => [0xF0, 0x90, 0xF0, 0x90, 0xF0],
        0x9 => [0xF0, 0x90, 0xF0, 0x10, 0xF0],
        0xA => [0xF0, 0x90, 0xF0, 0x90, 0x90],
        0xB => [0xE0, 0x90, 0xE0, 0x90, 0xE0],
        0xC => [0xF0, 0x80, 0x80, 0x80, 0xF0],
        0xD => [0xE0, 0x90, 0x90, 0x90, 0xE0],
        0xE => [0xF0, 0x80, 0xF0, 0x80, 0xF0],
        _ => [0xF0, 0x80, 0xF0, 0x80, 0x80],
    };
    row[k]
}

} // verus!

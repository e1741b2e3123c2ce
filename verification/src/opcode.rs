//! Field extraction from a 16-bit instruction word.
//!
//! Every opcode packs its operands into fixed bit ranges: `x` and `y` are
//! register indices, `n` a 4-bit immediate, `kk` an 8-bit immediate and
//! `nnn` a 12-bit address. Any 16-bit value decodes; there are no error
//! conditions here.

use vstd::prelude::*;

verus! {

/// Register index A: bits 8-11 of the word.
pub open spec fn x_of(op: u16) -> u16 {
    (op >> 8) & 0xF
}

/// Register index B: bits 4-7 of the word.
pub open spec fn y_of(op: u16) -> u16 {
    (op >> 4) & 0xF
}

/// 4-bit immediate (sprite height): bits 0-3 of the word.
pub open spec fn n_of(op: u16) -> u16 {
    op & 0xF
}

/// 8-bit immediate: bits 0-7 of the word.
pub open spec fn kk_of(op: u16) -> u16 {
    op & 0xFF
}

/// 12-bit address immediate: bits 0-11 of the word.
pub open spec fn nnn_of(op: u16) -> u16 {
    op & 0xFFF
}

/// The extracted fields are bounded by the width of their bit ranges.
pub proof fn lemma_field_bounds(op: u16)
    by (bit_vector)
    ensures
        (op >> 8) & 0xF < 16,
        (op >> 4) & 0xF < 16,
        op & 0xF < 16,
        op & 0xFF < 256,
        op & 0xFFF < 4096,
{
}

/// Register index A of the word, always below 16.
pub fn op_x(op: u16) -> (r: usize)
    ensures
        r == x_of(op),
        r < 16,
{
    proof {
        lemma_field_bounds(op);
    }
    ((op >> 8) & 0xF) as usize
}

/// Register index B of the word, always below 16.
pub fn op_y(op: u16) -> (r: usize)
    ensures
        r == y_of(op),
        r < 16,
{
    proof {
        lemma_field_bounds(op);
    }
    ((op >> 4) & 0xF) as usize
}

/// 4-bit immediate of the word, always below 16.
pub fn op_n(op: u16) -> (r: usize)
    ensures
        r == n_of(op),
        r < 16,
{
    proof {
        lemma_field_bounds(op);
    }
    (op & 0xF) as usize
}

/// 8-bit immediate of the word.
pub fn op_kk(op: u16) -> (r: u8)
    ensures
        r == kk_of(op),
{
    proof {
        lemma_field_bounds(op);
    }
    (op & 0xFF) as u8
}

/// 12-bit address immediate of the word, always below 4096.
pub fn op_nnn(op: u16) -> (r: u16)
    ensures
        r == nnn_of(op),
        r < 4096,
{
    proof {
        lemma_field_bounds(op);
    }
    op & 0xFFF
}

} // verus!

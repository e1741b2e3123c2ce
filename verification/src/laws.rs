//! Machine-wide laws: properties that tie several instructions, or an
//! instruction and the cycle driver, together. Each is proved from the
//! relations in `semantics` alone, so it holds of every machine state
//! the executor can produce.

use vstd::prelude::*;

use crate::font::{fontset_loaded, glyph};
use crate::machine::{pixel_on, Chip8, Chip8Error, Flow, StepOutcome, DISPLAY_HEIGHT, DISPLAY_WIDTH};
use crate::opcode::{n_of, x_of, y_of};
use crate::semantics::{
    advanced, cond_se_byte, cond_se_vx, cond_skp, cond_sknp, cond_sne, cond_sne_byte, decoded,
    draw_collision, draw_covers, fetch_word, lemma_wrap_col, rel_add, rel_drw, rel_read,
    rel_set_sprite, rel_store, rel_sub, sprite_bit, stepped, ticked, with_opcode,
};

verus! {

/// Addition with carry: when the destination register is not the flag
/// itself, the result register holds `(Vx + Vy) mod 256` and VF is 1
/// exactly when the sum overflowed 8 bits.
pub proof fn lemma_add_reports_carry(pre: Chip8, post: Chip8)
    requires
        rel_add(pre, post),
        x_of(pre.opcode) != 15,
    ensures
        post.v_reg@[x_of(pre.opcode) as int] == (pre.v_reg@[x_of(pre.opcode) as int]
            + pre.v_reg@[y_of(pre.opcode) as int]) % 256,
        (post.v_reg@[15] == 1) <==> (pre.v_reg@[x_of(pre.opcode) as int]
            + pre.v_reg@[y_of(pre.opcode) as int] > 255),
        post.v_reg@[15] == 0 || post.v_reg@[15] == 1,
{
    crate::opcode::lemma_field_bounds(pre.opcode);
    let vx = pre.v_reg@[x_of(pre.opcode) as int];
    let vy = pre.v_reg@[y_of(pre.opcode) as int];
    assert(((vx + vy) as u8) == (vx + vy) % 256) by (bit_vector);
}

/// Subtraction with borrow: when the destination register is not the
/// flag itself, `Vx > Vy` leaves the exact difference and VF = 1, and a
/// borrow forces the result to 0 with VF = 0.
pub proof fn lemma_sub_reports_borrow(pre: Chip8, post: Chip8)
    requires
        rel_sub(pre, post),
        x_of(pre.opcode) != 15,
    ensures
        pre.v_reg@[x_of(pre.opcode) as int] > pre.v_reg@[y_of(pre.opcode) as int] ==> {
            &&& post.v_reg@[x_of(pre.opcode) as int] == pre.v_reg@[x_of(pre.opcode) as int]
                - pre.v_reg@[y_of(pre.opcode) as int]
            &&& post.v_reg@[15] == 1
        },
        pre.v_reg@[x_of(pre.opcode) as int] <= pre.v_reg@[y_of(pre.opcode) as int] ==> {
            &&& post.v_reg@[x_of(pre.opcode) as int] == 0
            &&& post.v_reg@[15] == 0
        },
{
    crate::opcode::lemma_field_bounds(pre.opcode);
}

/// The word about to be fetched is one of the six conditional skips.
pub open spec fn is_skip_word(w: u16) -> bool {
    ||| w & 0xF000 == 0x3000
    ||| w & 0xF000 == 0x4000
    ||| (w & 0xF000 == 0x5000 && w & 0x000F == 0x0)
    ||| (w & 0xF000 == 0x9000 && w & 0x000F == 0x0)
    ||| (w & 0xF000 == 0xE000 && (w & 0x00FF == 0x9E || w & 0x00FF == 0xA1))
}

/// The condition the skip at the opcode register tests.
pub open spec fn skip_condition(m: Chip8) -> bool {
    if m.opcode & 0xF000 == 0x3000 {
        cond_se_byte(m)
    } else if m.opcode & 0xF000 == 0x4000 {
        cond_sne_byte(m)
    } else if m.opcode & 0xF000 == 0x5000 {
        cond_se_vx(m)
    } else if m.opcode & 0xF000 == 0x9000 {
        cond_sne(m)
    } else if m.opcode & 0x00FF == 0x9E {
        cond_skp(m)
    } else {
        cond_sknp(m)
    }
}

/// A cycle that executes any conditional skip moves the program counter
/// by exactly four words' worth when the condition holds - the driver's
/// two plus the skipped word's two - and by exactly two when it does
/// not.
pub proof fn lemma_skip_advance(pre: Chip8, post: Chip8, out: StepOutcome)
    requires
        stepped(pre, post, out),
        pre.pc + 1 < 4096,
        is_skip_word(fetch_word(pre)),
    ensures
        skip_condition(with_opcode(pre, fetch_word(pre))) ==> post.pc == pre.pc + 4,
        !skip_condition(with_opcode(pre, fetch_word(pre))) ==> post.pc == pre.pc + 2,
{
    let w = fetch_word(pre);
    let m1 = with_opcode(pre, w);
    crate::opcode::lemma_field_bounds(w);
    let (mid, f) = choose|mid: Chip8, f: Flow|
        {
            &&& #[trigger] decoded(m1, mid, Ok(f))
            &&& post == ticked(advanced(mid, f))
            &&& out == (StepOutcome { tone: mid.sound_timer > 0, waiting: f == Flow::WaitKey })
        };
    assert(f == Flow::Advance);
    assert(mid.pc == if skip_condition(m1) {
        (pre.pc + 2) as u16
    } else {
        pre.pc
    });
}

/// A decoded fault of any kind mutates nothing: the machine after the
/// report is the machine before it.
pub proof fn lemma_fault_preserves_state(pre: Chip8, post: Chip8, e: Chip8Error)
    requires
        decoded(pre, post, Err(e)),
    ensures
        post == pre,
{
}

/// Sprite XOR compositing: a pixel that a first draw turned on and that
/// a second draw hits again is reported as a collision in VF and
/// toggled back off.
pub proof fn lemma_draw_overlap_toggles_off(m0: Chip8, m1: Chip8, m2: Chip8, p: int)
    requires
        rel_drw(m0, m1),
        rel_drw(m1, m2),
        0 <= p < DISPLAY_WIDTH * DISPLAY_HEIGHT,
        !pixel_on(m0.display@, p),
        draw_covers(m0, p),
        draw_covers(m1, p),
    ensures
        pixel_on(m1.display@, p),
        m2.v_reg@[15] == 1,
        !pixel_on(m2.display@, p),
{
    crate::opcode::lemma_field_bounds(m1.opcode);
    assert(pixel_on(m1.display@, p));
    let x0 = m1.v_reg@[x_of(m1.opcode) as int] as int;
    let y0 = m1.v_reg@[y_of(m1.opcode) as int] as int;
    let (r, c) = choose|r: int, c: int|
        {
            &&& 0 <= r < n_of(m1.opcode) as int
            &&& 0 <= c < 8
            &&& y0 + r < DISPLAY_HEIGHT
            &&& #[trigger] sprite_bit(m1.memory@, m1.i_addr as int, r, c)
            &&& p == (y0 + r) * (DISPLAY_WIDTH as int) + (x0 + c) % (DISPLAY_WIDTH as int)
        };
    assert(draw_collision(m1));
}

/// Horizontal wrap-around: a sprite bit whose column would run past the
/// right edge lands at the left edge of the same row. With the sprite
/// start at the last column, bit `c > 0` covers column `c - 1` of its
/// row.
pub proof fn lemma_draw_wraps_to_row_start(pre: Chip8, r: int, c: int)
    requires
        0 <= r < n_of(pre.opcode),
        0 <= c < 8,
        pre.v_reg@[x_of(pre.opcode) as int] < DISPLAY_WIDTH,
        pre.v_reg@[x_of(pre.opcode) as int] + c >= DISPLAY_WIDTH,
        pre.v_reg@[y_of(pre.opcode) as int] + r < DISPLAY_HEIGHT,
        sprite_bit(pre.memory@, pre.i_addr as int, r, c),
    ensures
        draw_covers(
            pre,
            (pre.v_reg@[y_of(pre.opcode) as int] + r) * (DISPLAY_WIDTH as int) + (pre.v_reg@[x_of(
                pre.opcode,
            ) as int] + c - DISPLAY_WIDTH),
        ),
{
    crate::opcode::lemma_field_bounds(pre.opcode);
    let x0 = pre.v_reg@[x_of(pre.opcode) as int] as int;
    lemma_wrap_col(x0, c);
    vstd::arithmetic::div_mod::lemma_small_mod(x0 as nat, 64);
}

/// The glyph-address instruction: for a digit `d` below 16 in Vx, the
/// address register lands on `5 * d`, and when the glyph table is in
/// place the five bytes from there are the canonical pattern for `d`.
pub proof fn lemma_glyph_sprite_found(pre: Chip8, post: Chip8, k: int)
    requires
        rel_set_sprite(pre, post),
        fontset_loaded(pre.memory@),
        pre.v_reg@[x_of(pre.opcode) as int] < 16,
        0 <= k < 5,
    ensures
        post.i_addr == 5 * pre.v_reg@[x_of(pre.opcode) as int],
        post.memory@[post.i_addr + k] == glyph(pre.v_reg@[x_of(pre.opcode) as int] as int)[k],
{
    crate::opcode::lemma_field_bounds(pre.opcode);
    let v = pre.v_reg@[x_of(pre.opcode) as int];
    assert(v < 16 ==> v & 0xF == v) by (bit_vector);
    let d = v as int;
    assert(pre.memory@[5 * d + k] == crate::font::font_byte(5 * d + k));
    vstd::arithmetic::div_mod::lemma_fundamental_div_mod_converse(5 * d + k, 5, d, k);
}

/// Register block store/load round trip: storing V0 through Vx at I and
/// loading back from the same address restores each of those registers
/// exactly, whatever happened to the register file in between the two
/// memory pictures.
pub proof fn lemma_store_load_round_trip(m0: Chip8, m1: Chip8, m2: Chip8, j: int)
    requires
        rel_store(m0, m1),
        rel_read(m1, m2),
        m0.i_addr + x_of(m0.opcode) + 1 <= 4096,
        0 <= j <= x_of(m0.opcode),
    ensures
        m2.v_reg@[j] == m0.v_reg@[j],
{
    crate::opcode::lemma_field_bounds(m0.opcode);
    assert(m1.memory@[m0.i_addr + j] == m0.v_reg@[j]);
    assert(m2.v_reg@[j] == m1.memory@[m1.i_addr + j]);
}

} // verus!

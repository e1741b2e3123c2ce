//! The machine's instruction semantics, stated as relations between the
//! state before and after one decoded instruction.
//!
//! `decoded` is the full dispatch table: for every 16-bit word it says
//! which relation the executor must establish, when a fault is reported
//! instead, and that a fault mutates nothing. `stepped` composes fetch,
//! dispatch, the program-counter advance and the timer tick into the
//! meaning of one whole cycle.
//!
//! Control flow follows one discipline: an instruction that transfers
//! control places the program counter on its exact target and reports
//! `Flow::Jump`, everything else reports `Flow::Advance` and the cycle
//! driver moves past the executed word. The one deliberate exception is
//! the set-address instruction (0xAnnn), which advances the counter
//! itself and so skips a word per execution - historic interpreters of
//! this machine do the same, and programs may rely on it. The key-wait instruction reports `Flow::WaitKey` while no
//! key is down, leaving the counter in place so the cycle driver retries
//! it; timers still tick during the wait.

use vstd::prelude::*;
use vstd::wrapping::{u16_specs, u8_specs};

use crate::machine::{
    pixel_on, Chip8, Chip8Error, Flow, StepOutcome, DISPLAY_HEIGHT, DISPLAY_SIZE, DISPLAY_WIDTH,
};
use crate::opcode::{kk_of, n_of, nnn_of, x_of, y_of};

verus! {

/// `m` with its current-opcode register replaced by `w`.
pub open spec fn with_opcode(m: Chip8, w: u16) -> Chip8 {
    Chip8 { opcode: w, ..m }
}

/// The 16-bit word at the program counter, high byte first.
pub open spec fn fetch_word(m: Chip8) -> u16 {
    ((m.memory@[m.pc as int] as u16) << 8) | (m.memory@[m.pc as int + 1] as u16)
}

/// One timer tick: each timer that is above zero decrements by one.
pub open spec fn ticked(m: Chip8) -> Chip8 {
    Chip8 {
        delay_timer: if m.delay_timer > 0 {
            (m.delay_timer - 1) as u8
        } else {
            0
        },
        sound_timer: if m.sound_timer > 0 {
            (m.sound_timer - 1) as u8
        } else {
            0
        },
        ..m
    }
}

/// The cycle driver's advance: past the executed word on a fall-through,
/// not at all after a control transfer or while blocked on a key.
pub open spec fn advanced(m: Chip8, f: Flow) -> Chip8 {
    if f == Flow::Advance {
        Chip8 { pc: u16_specs::wrapping_add(m.pc, 2), ..m }
    } else {
        m
    }
}

/// `post` is `pre` with only the register file changed, to `regs`.
pub open spec fn regs_to(pre: Chip8, post: Chip8, regs: Seq<u8>) -> bool {
    &&& post == (Chip8 { v_reg: post.v_reg, ..pre })
    &&& post.v_reg@ == regs
}

/// 00E0: every framebuffer byte zeroed, nothing else touched.
pub open spec fn rel_cls(pre: Chip8, post: Chip8) -> bool {
    &&& post == (Chip8 { display: post.display, ..pre })
    &&& forall|i: int| 0 <= i < DISPLAY_SIZE ==> post.display@[i] == 0
}

/// 00EE: pop the top saved address into the program counter. The cycle
/// driver's advance then resumes one word past the call site.
pub open spec fn rel_ret(pre: Chip8, post: Chip8) -> bool {
    post == (Chip8 { pc: pre.stack@[pre.sp - 1], sp: (pre.sp - 1) as usize, ..pre })
}

/// 1nnn: the program counter lands exactly on `nnn`.
pub open spec fn rel_jp(pre: Chip8, post: Chip8) -> bool {
    post == (Chip8 { pc: nnn_of(pre.opcode), ..pre })
}

/// 2nnn: the call site is pushed, the counter lands exactly on `nnn`.
pub open spec fn rel_call(pre: Chip8, post: Chip8) -> bool {
    &&& post == (Chip8 { pc: post.pc, sp: post.sp, stack: post.stack, ..pre })
    &&& post.pc == nnn_of(pre.opcode)
    &&& post.sp == pre.sp + 1
    &&& post.stack@ == pre.stack@.update(pre.sp as int, pre.pc)
}

/// A conditional skip: the counter moves one extra word when `cond`
/// holds, so the whole cycle advances it by four instead of two.
pub open spec fn rel_skip(pre: Chip8, post: Chip8, cond: bool) -> bool {
    post == (Chip8 {
        pc: if cond {
            u16_specs::wrapping_add(pre.pc, 2)
        } else {
            pre.pc
        },
        ..pre
    })
}

/// 3xkk: skip when Vx equals the immediate byte.
pub open spec fn cond_se_byte(pre: Chip8) -> bool {
    pre.v_reg@[x_of(pre.opcode) as int] == kk_of(pre.opcode)
}

/// 4xkk: skip when Vx differs from the immediate byte.
pub open spec fn cond_sne_byte(pre: Chip8) -> bool {
    pre.v_reg@[x_of(pre.opcode) as int] != kk_of(pre.opcode)
}

/// 5xy0: skip when Vx equals Vy.
pub open spec fn cond_se_vx(pre: Chip8) -> bool {
    pre.v_reg@[x_of(pre.opcode) as int] == pre.v_reg@[y_of(pre.opcode) as int]
}

/// 9xy0: skip when Vx differs from Vy.
pub open spec fn cond_sne(pre: Chip8) -> bool {
    pre.v_reg@[x_of(pre.opcode) as int] != pre.v_reg@[y_of(pre.opcode) as int]
}

/// Ex9E: skip when the key numbered by Vx is down.
pub open spec fn cond_skp(pre: Chip8) -> bool {
    pre.keypad@[pre.v_reg@[x_of(pre.opcode) as int] as int] == 1
}

/// ExA1: skip when the key numbered by Vx is up.
pub open spec fn cond_sknp(pre: Chip8) -> bool {
    pre.keypad@[pre.v_reg@[x_of(pre.opcode) as int] as int] == 0
}

/// 6xkk: Vx := kk.
pub open spec fn rel_ld_byte(pre: Chip8, post: Chip8) -> bool {
    regs_to(pre, post, pre.v_reg@.update(x_of(pre.opcode) as int, kk_of(pre.opcode) as u8))
}

/// 7xkk: Vx := Vx + kk, wrapping at 8 bits, no flag written.
pub open spec fn rel_add_byte(pre: Chip8, post: Chip8) -> bool {
    let x = x_of(pre.opcode) as int;
    regs_to(
        pre,
        post,
        pre.v_reg@.update(x, u8_specs::wrapping_add(pre.v_reg@[x], kk_of(pre.opcode) as u8)),
    )
}

/// 8xy0: Vx := Vy.
pub open spec fn rel_ld_vy(pre: Chip8, post: Chip8) -> bool {
    regs_to(
        pre,
        post,
        pre.v_reg@.update(x_of(pre.opcode) as int, pre.v_reg@[y_of(pre.opcode) as int]),
    )
}

/// 8xy1: Vx := Vx | Vy.
pub open spec fn rel_or(pre: Chip8, post: Chip8) -> bool {
    let x = x_of(pre.opcode) as int;
    let y = y_of(pre.opcode) as int;
    regs_to(pre, post, pre.v_reg@.update(x, pre.v_reg@[x] | pre.v_reg@[y]))
}

/// 8xy2: Vx := Vx & Vy.
pub open spec fn rel_and(pre: Chip8, post: Chip8) -> bool {
    let x = x_of(pre.opcode) as int;
    let y = y_of(pre.opcode) as int;
    regs_to(pre, post, pre.v_reg@.update(x, pre.v_reg@[x] & pre.v_reg@[y]))
}

/// 8xy3: Vx := Vx ^ Vy.
pub open spec fn rel_xor(pre: Chip8, post: Chip8) -> bool {
    let x = x_of(pre.opcode) as int;
    let y = y_of(pre.opcode) as int;
    regs_to(pre, post, pre.v_reg@.update(x, pre.v_reg@[x] ^ pre.v_reg@[y]))
}

/// 8xy4: VF reports the carry, then Vx := (Vx + Vy) mod 256. The flag
/// write comes first, so when x is 15 the sum is what remains.
pub open spec fn rel_add(pre: Chip8, post: Chip8) -> bool {
    let x = x_of(pre.opcode) as int;
    let y = y_of(pre.opcode) as int;
    let vx = pre.v_reg@[x];
    let vy = pre.v_reg@[y];
    let carry: u8 = if vx + vy > 255 {
        1
    } else {
        0
    };
    regs_to(pre, post, pre.v_reg@.update(15, carry).update(x, (vx + vy) as u8))
}

/// 8xy5: when Vx > Vy, VF := 1 and Vx := Vx - Vy; otherwise the borrow
/// clears VF and forces the result to 0.
pub open spec fn rel_sub(pre: Chip8, post: Chip8) -> bool {
    let x = x_of(pre.opcode) as int;
    let y = y_of(pre.opcode) as int;
    let vx = pre.v_reg@[x];
    let vy = pre.v_reg@[y];
    if vx > vy {
        regs_to(pre, post, pre.v_reg@.update(15, 1u8).update(x, (vx - vy) as u8))
    } else {
        regs_to(pre, post, pre.v_reg@.update(15, 0u8).update(x, 0u8))
    }
}

/// 8xy7: the mirrored subtraction, Vx := Vy - Vx under the same
/// zero-on-borrow policy.
pub open spec fn rel_subn(pre: Chip8, post: Chip8) -> bool {
    let x = x_of(pre.opcode) as int;
    let y = y_of(pre.opcode) as int;
    let vx = pre.v_reg@[x];
    let vy = pre.v_reg@[y];
    if vy > vx {
        regs_to(pre, post, pre.v_reg@.update(15, 1u8).update(x, (vy - vx) as u8))
    } else {
        regs_to(pre, post, pre.v_reg@.update(15, 0u8).update(x, 0u8))
    }
}

/// 8xy6: VF := the low bit of Vx, then Vx shifts right once. The flag is
/// written first, so when x is 15 the shift acts on the flag value.
pub open spec fn rel_shr(pre: Chip8, post: Chip8) -> bool {
    let x = x_of(pre.opcode) as int;
    let r1 = pre.v_reg@.update(15, pre.v_reg@[x_of(pre.opcode) as int] & 1);
    regs_to(pre, post, r1.update(x, r1[x] >> 1))
}

/// 8xyE: VF := the high bit of Vx kept in place (0x80, not normalized
/// to a 0/1 flag, unlike the paired right shift - a quirk this machine
/// keeps), then Vx shifts left once, dropping that bit.
pub open spec fn rel_shl(pre: Chip8, post: Chip8) -> bool {
    let x = x_of(pre.opcode) as int;
    let r1 = pre.v_reg@.update(15, pre.v_reg@[x_of(pre.opcode) as int] & 0x80);
    regs_to(pre, post, r1.update(x, r1[x] << 1))
}

/// Annn: I := nnn, and the counter moves one word here as well; with
/// the driver's own advance this instruction skips a word per
/// execution, a documented quirk of this machine.
pub open spec fn rel_ld(pre: Chip8, post: Chip8) -> bool {
    post == (Chip8 { i_addr: nnn_of(pre.opcode), pc: u16_specs::wrapping_add(pre.pc, 2), ..pre })
}

/// Bnnn: the counter lands exactly on nnn + V0, which may exceed the
/// 12-bit address space; the fetch that follows reports the fault.
pub open spec fn rel_jp_v0(pre: Chip8, post: Chip8) -> bool {
    post == (Chip8 { pc: (nnn_of(pre.opcode) + pre.v_reg@[0]) as u16, ..pre })
}

/// Cxkk: Vx := `b` & kk for the byte `b` the random source produced.
pub open spec fn rel_rnd(pre: Chip8, post: Chip8, b: u8) -> bool {
    regs_to(pre, post, pre.v_reg@.update(x_of(pre.opcode) as int, b & kk_of(pre.opcode) as u8))
}

/// Fx07: Vx := delay timer.
pub open spec fn rel_get_dt(pre: Chip8, post: Chip8) -> bool {
    regs_to(pre, post, pre.v_reg@.update(x_of(pre.opcode) as int, pre.delay_timer))
}

/// Fx15: delay timer := Vx.
pub open spec fn rel_set_dt(pre: Chip8, post: Chip8) -> bool {
    post == (Chip8 { delay_timer: pre.v_reg@[x_of(pre.opcode) as int], ..pre })
}

/// Fx18: sound timer := Vx.
pub open spec fn rel_set_st(pre: Chip8, post: Chip8) -> bool {
    post == (Chip8 { sound_timer: pre.v_reg@[x_of(pre.opcode) as int], ..pre })
}

/// Fx1E: I := I + Vx, unchecked against the 4096-byte memory size;
/// later instructions that use I report any overrun.
pub open spec fn rel_add_i(pre: Chip8, post: Chip8) -> bool {
    post == (Chip8 {
        i_addr: u16_specs::wrapping_add(pre.i_addr, pre.v_reg@[x_of(pre.opcode) as int] as u16),
        ..pre
    })
}

/// Fx29: I := the glyph-table address of the digit in the low nibble of
/// Vx, five bytes per digit from the bottom of memory. Only the nibble
/// selects, so I always stays inside the glyph table.
pub open spec fn rel_set_sprite(pre: Chip8, post: Chip8) -> bool {
    post == (Chip8 {
        i_addr: (5 * ((pre.v_reg@[x_of(pre.opcode) as int] & 0xF) as u16)) as u16,
        ..pre
    })
}

/// The smallest pressed key number at or above `k`, or 16 when none is.
pub open spec fn lowest_key(keypad: Seq<u8>, k: int) -> int
    decreases 16 - k,
{
    if k < 0 || k >= 16 {
        16
    } else if keypad[k] == 1 {
        k
    } else {
        lowest_key(keypad, k + 1)
    }
}

/// Fx0A with a key down: Vx := the lowest pressed key number.
pub open spec fn rel_waitkey(pre: Chip8, post: Chip8) -> bool {
    regs_to(
        pre,
        post,
        pre.v_reg@.update(x_of(pre.opcode) as int, lowest_key(pre.keypad@, 0) as u8),
    )
}

/// Fx33: the decimal digits of Vx land at I, I+1, I+2 - hundreds first.
pub open spec fn rel_bcd(pre: Chip8, post: Chip8) -> bool {
    let i = pre.i_addr as int;
    let vx = pre.v_reg@[x_of(pre.opcode) as int];
    &&& post == (Chip8 { memory: post.memory, ..pre })
    &&& post.memory@ == pre.memory@.update(i, vx / 100).update(i + 1, (vx / 10) % 10).update(
        i + 2,
        vx % 10,
    )
}

/// Fx55: registers V0 through Vx land at I onward; memory elsewhere and
/// the registers themselves are untouched.
pub open spec fn rel_store(pre: Chip8, post: Chip8) -> bool {
    let i = pre.i_addr as int;
    let x = x_of(pre.opcode) as int;
    &&& post == (Chip8 { memory: post.memory, ..pre })
    &&& forall|j: int| 0 <= j <= x ==> post.memory@[i + j] == pre.v_reg@[j]
    &&& forall|a: int| 0 <= a < 4096 && !(i <= a <= i + x) ==> post.memory@[a] == pre.memory@[a]
}

/// Fx65: registers V0 through Vx are filled from I onward; the higher
/// registers and memory are untouched.
pub open spec fn rel_read(pre: Chip8, post: Chip8) -> bool {
    let i = pre.i_addr as int;
    let x = x_of(pre.opcode) as int;
    &&& post == (Chip8 { v_reg: post.v_reg, ..pre })
    &&& forall|j: int| 0 <= j <= x ==> post.v_reg@[j] == pre.memory@[i + j]
    &&& forall|k: int| x < k < 16 ==> post.v_reg@[k] == pre.v_reg@[k]
}

/// The wrapped column `(x0 + c) % 64` written without the modulus:
/// start from `x0 % 64` and fold a run past the right edge back by one
/// row width.
pub proof fn lemma_wrap_col(x0: int, c: int)
    requires
        0 <= x0,
        0 <= c < 8,
    ensures
        0 <= (x0 + c) % (DISPLAY_WIDTH as int) < DISPLAY_WIDTH,
        x0 % (DISPLAY_WIDTH as int) + c < DISPLAY_WIDTH ==> (x0 + c) % (DISPLAY_WIDTH as int)
            == x0 % (DISPLAY_WIDTH as int) + c,
        x0 % (DISPLAY_WIDTH as int) + c >= DISPLAY_WIDTH ==> (x0 + c) % (DISPLAY_WIDTH as int)
            == x0 % (DISPLAY_WIDTH as int) + c - DISPLAY_WIDTH,
{
    vstd::arithmetic::div_mod::lemma_mod_bound(x0 + c, 64);
    vstd::arithmetic::div_mod::lemma_mod_bound(x0, 64);
    vstd::arithmetic::div_mod::lemma_add_mod_noop(x0, c, 64);
    vstd::arithmetic::div_mod::lemma_small_mod(c as nat, 64);
    let t = x0 % 64;
    if t + c < 64 {
        vstd::arithmetic::div_mod::lemma_small_mod((t + c) as nat, 64);
    } else {
        vstd::arithmetic::div_mod::lemma_mod_multiples_vanish(1, t + c - 64, 64);
        vstd::arithmetic::div_mod::lemma_small_mod((t + c - 64) as nat, 64);
    }
}

/// Bit `c` (most significant first) of sprite row `r` read from `base`.
pub open spec fn sprite_bit(mem: Seq<u8>, base: int, r: int, c: int) -> bool {
    mem[base + r] & (0x80u8 >> c) != 0
}

/// Dxyn hits pixel `p`: some sprite bit that is 1 lands there. Columns
/// wrap around the row; rows below the bottom edge are clipped.
pub open spec fn draw_covers(pre: Chip8, p: int) -> bool {
    let x0 = pre.v_reg@[x_of(pre.opcode) as int] as int;
    let y0 = pre.v_reg@[y_of(pre.opcode) as int] as int;
    let n = n_of(pre.opcode) as int;
    let base = pre.i_addr as int;
    exists|r: int, c: int|
        {
            &&& 0 <= r < n
            &&& 0 <= c < 8
            &&& y0 + r < DISPLAY_HEIGHT
            &&& #[trigger] sprite_bit(pre.memory@, base, r, c)
            &&& p == (y0 + r) * (DISPLAY_WIDTH as int) + (x0 + c) % (DISPLAY_WIDTH as int)
        }
}

/// Dxyn collides: some sprite bit that is 1 lands on a pixel already on.
pub open spec fn draw_collision(pre: Chip8) -> bool {
    let x0 = pre.v_reg@[x_of(pre.opcode) as int] as int;
    let y0 = pre.v_reg@[y_of(pre.opcode) as int] as int;
    let n = n_of(pre.opcode) as int;
    let base = pre.i_addr as int;
    exists|r: int, c: int|
        {
            &&& 0 <= r < n
            &&& 0 <= c < 8
            &&& y0 + r < DISPLAY_HEIGHT
            &&& #[trigger] sprite_bit(pre.memory@, base, r, c)
            &&& pixel_on(pre.display@, (y0 + r) * (DISPLAY_WIDTH as int) + (x0 + c) % (DISPLAY_WIDTH as int))
        }
}

/// Dxyn: each hit pixel flips under XOR, every other pixel keeps its
/// state, and VF reports whether any hit pixel was already on. Before
/// the flag write the register file is untouched, so the sprite position
/// is read from the state before the draw.
pub open spec fn rel_drw(pre: Chip8, post: Chip8) -> bool {
    &&& post == (Chip8 { display: post.display, v_reg: post.v_reg, ..pre })
    &&& post.v_reg@ == pre.v_reg@.update(
        15,
        if draw_collision(pre) {
            1u8
        } else {
            0u8
        },
    )
    &&& crate::machine::display_valid(post.display@)
    &&& forall|p: int|
        0 <= p < DISPLAY_WIDTH * DISPLAY_HEIGHT ==> (#[trigger] pixel_on(post.display@, p)
            <==> (pixel_on(pre.display@, p) != draw_covers(pre, p)))
}

/// The dispatch table: relates the state before and after executing the
/// word in the opcode register, and says exactly which result the
/// executor reports. Every fault leaves the machine untouched.
pub open spec fn decoded(pre: Chip8, post: Chip8, r: Result<Flow, Chip8Error>) -> bool {
    let op = pre.opcode;
    let x = x_of(op) as int;
    let n = n_of(op) as int;
    if op & 0xF000 == 0x0000 {
        if op & 0x00FF == 0xE0 {
            r == Ok::<Flow, Chip8Error>(Flow::Advance) && rel_cls(pre, post)
        } else if op & 0x00FF == 0xEE {
            if pre.sp == 0 {
                r == Err::<Flow, Chip8Error>(Chip8Error::StackUnderflow) && post == pre
            } else {
                r == Ok::<Flow, Chip8Error>(Flow::Advance) && rel_ret(pre, post)
            }
        } else {
            r == Err::<Flow, Chip8Error>(Chip8Error::UnknownOpcode(op)) && post == pre
        }
    } else if op & 0xF000 == 0x1000 {
        r == Ok::<Flow, Chip8Error>(Flow::Jump) && rel_jp(pre, post)
    } else if op & 0xF000 == 0x2000 {
        if pre.sp >= 16 {
            r == Err::<Flow, Chip8Error>(Chip8Error::StackOverflow) && post == pre
        } else {
            r == Ok::<Flow, Chip8Error>(Flow::Jump) && rel_call(pre, post)
        }
    } else if op & 0xF000 == 0x3000 {
        r == Ok::<Flow, Chip8Error>(Flow::Advance) && rel_skip(pre, post, cond_se_byte(pre))
    } else if op & 0xF000 == 0x4000 {
        r == Ok::<Flow, Chip8Error>(Flow::Advance) && rel_skip(pre, post, cond_sne_byte(pre))
    } else if op & 0xF000 == 0x5000 {
        if op & 0x000F == 0x0 {
            r == Ok::<Flow, Chip8Error>(Flow::Advance) && rel_skip(pre, post, cond_se_vx(pre))
        } else {
            r == Err::<Flow, Chip8Error>(Chip8Error::UnknownOpcode(op)) && post == pre
        }
    } else if op & 0xF000 == 0x6000 {
        r == Ok::<Flow, Chip8Error>(Flow::Advance) && rel_ld_byte(pre, post)
    } else if op & 0xF000 == 0x7000 {
        r == Ok::<Flow, Chip8Error>(Flow::Advance) && rel_add_byte(pre, post)
    } else if op & 0xF000 == 0x8000 {
        if op & 0x000F == 0x0 {
            r == Ok::<Flow, Chip8Error>(Flow::Advance) && rel_ld_vy(pre, post)
        } else if op & 0x000F == 0x1 {
            r == Ok::<Flow, Chip8Error>(Flow::Advance) && rel_or(pre, post)
        } else if op & 0x000F == 0x2 {
            r == Ok::<Flow, Chip8Error>(Flow::Advance) && rel_and(pre, post)
        } else if op & 0x000F == 0x3 {
            r == Ok::<Flow, Chip8Error>(Flow::Advance) && rel_xor(pre, post)
        } else if op & 0x000F == 0x4 {
            r == Ok::<Flow, Chip8Error>(Flow::Advance) && rel_add(pre, post)
        } else if op & 0x000F == 0x5 {
            r == Ok::<Flow, Chip8Error>(Flow::Advance) && rel_sub(pre, post)
        } else if op & 0x000F == 0x6 {
            r == Ok::<Flow, Chip8Error>(Flow::Advance) && rel_shr(pre, post)
        } else if op & 0x000F == 0x7 {
            r == Ok::<Flow, Chip8Error>(Flow::Advance) && rel_subn(pre, post)
        } else if op & 0x000F == 0xE {
            r == Ok::<Flow, Chip8Error>(Flow::Advance) && rel_shl(pre, post)
        } else {
            r == Err::<Flow, Chip8Error>(Chip8Error::UnknownOpcode(op)) && post == pre
        }
    } else if op & 0xF000 == 0x9000 {
        if op & 0x000F == 0x0 {
            r == Ok::<Flow, Chip8Error>(Flow::Advance) && rel_skip(pre, post, cond_sne(pre))
        } else {
            r == Err::<Flow, Chip8Error>(Chip8Error::UnknownOpcode(op)) && post == pre
        }
    } else if op & 0xF000 == 0xA000 {
        r == Ok::<Flow, Chip8Error>(Flow::Advance) && rel_ld(pre, post)
    } else if op & 0xF000 == 0xB000 {
        r == Ok::<Flow, Chip8Error>(Flow::Jump) && rel_jp_v0(pre, post)
    } else if op & 0xF000 == 0xC000 {
        r == Ok::<Flow, Chip8Error>(Flow::Advance) && (exists|b: u8| rel_rnd(pre, post, b))
    } else if op & 0xF000 == 0xD000 {
        if pre.i_addr + n > 4096 {
            r == Err::<Flow, Chip8Error>(Chip8Error::AddressOutOfRange) && post == pre
        } else {
            r == Ok::<Flow, Chip8Error>(Flow::Advance) && rel_drw(pre, post)
        }
    } else if op & 0xF000 == 0xE000 {
        if op & 0x00FF == 0x9E {
            if pre.v_reg@[x] >= 16 {
                r == Err::<Flow, Chip8Error>(Chip8Error::BadKeyIndex) && post == pre
            } else {
                r == Ok::<Flow, Chip8Error>(Flow::Advance) && rel_skip(pre, post, cond_skp(pre))
            }
        } else if op & 0x00FF == 0xA1 {
            if pre.v_reg@[x] >= 16 {
                r == Err::<Flow, Chip8Error>(Chip8Error::BadKeyIndex) && post == pre
            } else {
                r == Ok::<Flow, Chip8Error>(Flow::Advance) && rel_skip(pre, post, cond_sknp(pre))
            }
        } else {
            r == Err::<Flow, Chip8Error>(Chip8Error::UnknownOpcode(op)) && post == pre
        }
    } else if op & 0xF000 == 0xF000 {
        if op & 0x00FF == 0x07 {
            r == Ok::<Flow, Chip8Error>(Flow::Advance) && rel_get_dt(pre, post)
        } else if op & 0x00FF == 0x0A {
            if lowest_key(pre.keypad@, 0) < 16 {
                r == Ok::<Flow, Chip8Error>(Flow::Advance) && rel_waitkey(pre, post)
            } else {
                r == Ok::<Flow, Chip8Error>(Flow::WaitKey) && post == pre
            }
        } else if op & 0x00FF == 0x15 {
            r == Ok::<Flow, Chip8Error>(Flow::Advance) && rel_set_dt(pre, post)
        } else if op & 0x00FF == 0x18 {
            r == Ok::<Flow, Chip8Error>(Flow::Advance) && rel_set_st(pre, post)
        } else if op & 0x00FF == 0x1E {
            r == Ok::<Flow, Chip8Error>(Flow::Advance) && rel_add_i(pre, post)
        } else if op & 0x00FF == 0x29 {
            r == Ok::<Flow, Chip8Error>(Flow::Advance) && rel_set_sprite(pre, post)
        } else if op & 0x00FF == 0x33 {
            if pre.i_addr + 3 > 4096 {
                r == Err::<Flow, Chip8Error>(Chip8Error::AddressOutOfRange) && post == pre
            } else {
                r == Ok::<Flow, Chip8Error>(Flow::Advance) && rel_bcd(pre, post)
            }
        } else if op & 0x00FF == 0x55 {
            if pre.i_addr + x + 1 > 4096 {
                r == Err::<Flow, Chip8Error>(Chip8Error::AddressOutOfRange) && post == pre
            } else {
                r == Ok::<Flow, Chip8Error>(Flow::Advance) && rel_store(pre, post)
            }
        } else if op & 0x00FF == 0x65 {
            if pre.i_addr + x + 1 > 4096 {
                r == Err::<Flow, Chip8Error>(Chip8Error::AddressOutOfRange) && post == pre
            } else {
                r == Ok::<Flow, Chip8Error>(Flow::Advance) && rel_read(pre, post)
            }
        } else {
            r == Err::<Flow, Chip8Error>(Chip8Error::UnknownOpcode(op)) && post == pre
        }
    } else {
        r == Err::<Flow, Chip8Error>(Chip8Error::UnknownOpcode(op)) && post == pre
    }
}

/// One whole successful cycle: the word at the program counter is
/// fetched into the opcode register, the dispatch table relates the
/// states around execution, the driver advances on a fall-through, both
/// timers tick, and the outcome reports the tone request and whether the
/// machine is blocked on a key.
pub open spec fn stepped(pre: Chip8, post: Chip8, out: StepOutcome) -> bool {
    exists|mid: Chip8, f: Flow|
        {
            &&& #[trigger] decoded(with_opcode(pre, fetch_word(pre)), mid, Ok(f))
            &&& post == ticked(advanced(mid, f))
            &&& out == (StepOutcome { tone: mid.sound_timer > 0, waiting: f == Flow::WaitKey })
        }
}

} // verus!

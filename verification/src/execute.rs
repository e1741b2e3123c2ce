//! The instruction executor and cycle driver: one handler per opcode,
//! each proved against its relation from `semantics`, the dispatcher
//! `decode_opcode`, and `emulate_cycle`, which runs one whole
//! fetch-decode-execute-tick step.

use vstd::prelude::*;

use crate::machine::{display_valid, pixel_on, Chip8, Chip8Error, Flow, StepOutcome,
    DISPLAY_HEIGHT, DISPLAY_WIDTH};
use crate::opcode::{op_kk, op_n, op_nnn, op_x, op_y};
use crate::opcode::{n_of, x_of, y_of};
use crate::semantics::{
    advanced, cond_se_byte, cond_se_vx, cond_skp, cond_sknp, cond_sne, cond_sne_byte, decoded,
    draw_collision, draw_covers, fetch_word, lemma_wrap_col, rel_drw, sprite_bit,
    lowest_key, rel_add, rel_add_byte, rel_add_i, rel_and, rel_bcd, rel_call, rel_cls, rel_get_dt,
    rel_jp, rel_jp_v0, rel_ld, rel_ld_byte, rel_ld_vy, rel_or, rel_read, rel_ret, rel_rnd,
    rel_set_dt, rel_set_sprite, rel_set_st, rel_shl, rel_shr, rel_skip, rel_store, rel_sub,
    rel_subn, rel_waitkey, rel_xor, stepped, ticked, with_opcode,
};

verus! {

/// Relies on rand::random: one byte drawn from the thread-local
/// generator. Nothing is promised of its value; callers state what
/// holds of every possible byte.
#[verifier::external_body]
fn random_byte() -> u8 {
    rand::random::<u8>()
}

impl Chip8 {
    /// Read the two bytes at the program counter into the opcode
    /// register, high byte first; a counter at or past the last byte
    /// pair of memory is a fault that changes nothing.
    pub fn fetch_opcode(&mut self) -> (r: Result<(), Chip8Error>)
        ensures
            old(self).pc + 1 < 4096 ==> {
                &&& r == Ok::<(), Chip8Error>(())
                &&& *final(self) == with_opcode(*old(self), fetch_word(*old(self)))
            },
            old(self).pc + 1 >= 4096 ==> {
                &&& r == Err::<(), Chip8Error>(Chip8Error::AddressOutOfRange)
                &&& *final(self) == *old(self)
            },
    {
        let pc = self.pc as usize;
        if pc + 1 >= 4096 {
            return Err(Chip8Error::AddressOutOfRange);
        }
        let byte1 = self.memory[pc] as u16;
        let byte2 = self.memory[pc + 1] as u16;
        self.opcode = byte1 << 8 | byte2;
        Ok(())
    }

    /// 00E0: clear the display.
    fn opcode_cls(&mut self)
        requires
            old(self).wf(),
        ensures
            final(self).wf(),
            rel_cls(*old(self), *final(self)),
    {
        self.display = [0; crate::machine::DISPLAY_SIZE];
        proof {
            assert forall|p: int|
                0 <= p < crate::machine::DISPLAY_WIDTH * crate::machine::DISPLAY_HEIGHT implies #[trigger] crate::machine::pixel_ok(
                self.display@,
                p,
            ) by {
                assert(self.display@[3 * p] == 0);
                assert(self.display@[3 * p + 1] == 0);
                assert(self.display@[3 * p + 2] == 0);
            }
        }
    }

    /// 00EE: return from a subroutine, faulting on an empty stack.
    fn opcode_ret(&mut self) -> (r: Result<(), Chip8Error>)
        requires
            old(self).wf(),
        ensures
            final(self).wf(),
            old(self).sp == 0 ==> {
                &&& r == Err::<(), Chip8Error>(Chip8Error::StackUnderflow)
                &&& *final(self) == *old(self)
            },
            old(self).sp > 0 ==> {
                &&& r == Ok::<(), Chip8Error>(())
                &&& rel_ret(*old(self), *final(self))
            },
    {
        if self.sp == 0 {
            return Err(Chip8Error::StackUnderflow);
        }
        self.sp -= 1;
        self.pc = self.stack[self.sp];
        Ok(())
    }

    /// 1nnn: jump to the address, landing exactly on it.
    fn opcode_jp(&mut self)
        requires
            old(self).wf(),
        ensures
            final(self).wf(),
            rel_jp(*old(self), *final(self)),
    {
        self.pc = op_nnn(self.opcode);
    }

    /// 2nnn: call the subroutine, faulting when all stack slots are full.
    fn opcode_call(&mut self) -> (r: Result<(), Chip8Error>)
        requires
            old(self).wf(),
        ensures
            final(self).wf(),
            old(self).sp >= 16 ==> {
                &&& r == Err::<(), Chip8Error>(Chip8Error::StackOverflow)
                &&& *final(self) == *old(self)
            },
            old(self).sp < 16 ==> {
                &&& r == Ok::<(), Chip8Error>(())
                &&& rel_call(*old(self), *final(self))
            },
    {
        if self.sp >= 16 {
            return Err(Chip8Error::StackOverflow);
        }
        self.stack[self.sp] = self.pc;
        self.sp += 1;
        self.pc = op_nnn(self.opcode);
        Ok(())
    }

    /// 3xkk: skip the next instruction when Vx equals kk.
    fn opcode_se_byte(&mut self)
        requires
            old(self).wf(),
        ensures
            final(self).wf(),
            rel_skip(*old(self), *final(self), cond_se_byte(*old(self))),
    {
        let x = op_x(self.opcode);
        if self.v_reg[x] == op_kk(self.opcode) {
            self.pc = self.pc.wrapping_add(2);
        }
    }

    /// 4xkk: skip the next instruction when Vx differs from kk.
    fn opcode_sne_byte(&mut self)
        requires
            old(self).wf(),
        ensures
            final(self).wf(),
            rel_skip(*old(self), *final(self), cond_sne_byte(*old(self))),
    {
        let x = op_x(self.opcode);
        if self.v_reg[x] != op_kk(self.opcode) {
            self.pc = self.pc.wrapping_add(2);
        }
    }

    /// 5xy0: skip the next instruction when Vx equals Vy.
    fn opcode_se_vx(&mut self)
        requires
            old(self).wf(),
        ensures
            final(self).wf(),
            rel_skip(*old(self), *final(self), cond_se_vx(*old(self))),
    {
        let x = op_x(self.opcode);
        let y = op_y(self.opcode);
        if self.v_reg[x] == self.v_reg[y] {
            self.pc = self.pc.wrapping_add(2);
        }
    }

    /// 6xkk: set Vx to kk.
    fn opcode_ld_byte(&mut self)
        requires
            old(self).wf(),
        ensures
            final(self).wf(),
            rel_ld_byte(*old(self), *final(self)),
    {
        let x = op_x(self.opcode);
        self.v_reg[x] = op_kk(self.opcode);
    }

    /// 7xkk: add kk to Vx, wrapping at 8 bits.
    fn opcode_add_byte(&mut self)
        requires
            old(self).wf(),
        ensures
            final(self).wf(),
            rel_add_byte(*old(self), *final(self)),
    {
        let x = op_x(self.opcode);
        self.v_reg[x] = self.v_reg[x].wrapping_add(op_kk(self.opcode));
    }

    /// 8xy0: set Vx to Vy.
    fn opcode_ld_vy(&mut self)
        requires
            old(self).wf(),
        ensures
            final(self).wf(),
            rel_ld_vy(*old(self), *final(self)),
    {
        let x = op_x(self.opcode);
        let y = op_y(self.opcode);
        self.v_reg[x] = self.v_reg[y];
    }

    /// 8xy1: bitwise OR of Vy into Vx.
    fn opcode_or(&mut self)
        requires
            old(self).wf(),
        ensures
            final(self).wf(),
            rel_or(*old(self), *final(self)),
    {
        let x = op_x(self.opcode);
        let y = op_y(self.opcode);
        self.v_reg[x] = self.v_reg[x] | self.v_reg[y];
    }

    /// 8xy2: bitwise AND of Vy into Vx.
    fn opcode_and(&mut self)
        requires
            old(self).wf(),
        ensures
            final(self).wf(),
            rel_and(*old(self), *final(self)),
    {
        let x = op_x(self.opcode);
        let y = op_y(self.opcode);
        self.v_reg[x] = self.v_reg[x] & self.v_reg[y];
    }

    /// 8xy3: bitwise XOR of Vy into Vx.
    fn opcode_xor(&mut self)
        requires
            old(self).wf(),
        ensures
            final(self).wf(),
            rel_xor(*old(self), *final(self)),
    {
        let x = op_x(self.opcode);
        let y = op_y(self.opcode);
        self.v_reg[x] = self.v_reg[x] ^ self.v_reg[y];
    }

    /// 8xy4: add Vy to Vx; VF reports the carry out of 8 bits.
    fn opcode_add(&mut self)
        requires
            old(self).wf(),
        ensures
            final(self).wf(),
            rel_add(*old(self), *final(self)),
    {
        let x = op_x(self.opcode);
        let y = op_y(self.opcode);
        let vx = self.v_reg[x] as u16;
        let vy = self.v_reg[y] as u16;
        let result = vx + vy;
        if result > 255 {
            self.v_reg[15] = 1;
        } else {
            self.v_reg[15] = 0;
        }
        self.v_reg[x] = #[verifier::truncate] (result as u8);
    }

    /// 8xy5: subtract Vy from Vx; VF reports "no borrow", and a borrow
    /// forces the result to zero.
    fn opcode_sub(&mut self)
        requires
            old(self).wf(),
        ensures
            final(self).wf(),
            rel_sub(*old(self), *final(self)),
    {
        let x = op_x(self.opcode);
        let y = op_y(self.opcode);
        let vx = self.v_reg[x];
        let vy = self.v_reg[y];
        if vx > vy {
            self.v_reg[15] = 1;
            self.v_reg[x] = vx - vy;
        } else {
            self.v_reg[15] = 0;
            self.v_reg[x] = 0;
        }
    }

    /// 8xy6: shift Vx right once; VF takes the bit shifted out.
    fn opcode_shr(&mut self)
        requires
            old(self).wf(),
        ensures
            final(self).wf(),
            rel_shr(*old(self), *final(self)),
    {
        let x = op_x(self.opcode);
        let lsb = self.v_reg[x] & 0x01;
        self.v_reg[15] = lsb;
        self.v_reg[x] = self.v_reg[x] >> 1;
    }

    /// 8xy7: Vx := Vy - Vx under the same zero-on-borrow policy.
    fn opcode_subn(&mut self)
        requires
            old(self).wf(),
        ensures
            final(self).wf(),
            rel_subn(*old(self), *final(self)),
    {
        let x = op_x(self.opcode);
        let y = op_y(self.opcode);
        let vx = self.v_reg[x];
        let vy = self.v_reg[y];
        if vy > vx {
            self.v_reg[15] = 1;
            self.v_reg[x] = vy - vx;
        } else {
            self.v_reg[15] = 0;
            self.v_reg[x] = 0;
        }
    }

    /// 8xyE: shift Vx left once; VF takes the high bit in place.
    fn opcode_shl(&mut self)
        requires
            old(self).wf(),
        ensures
            final(self).wf(),
            rel_shl(*old(self), *final(self)),
    {
        let x = op_x(self.opcode);
        let msb = self.v_reg[x] & 0x80;
        self.v_reg[15] = msb;
        self.v_reg[x] = self.v_reg[x] << 1;
    }

    /// 9xy0: skip the next instruction when Vx differs from Vy.
    fn opcode_sne(&mut self)
        requires
            old(self).wf(),
        ensures
            final(self).wf(),
            rel_skip(*old(self), *final(self), cond_sne(*old(self))),
    {
        let x = op_x(self.opcode);
        let y = op_y(self.opcode);
        if self.v_reg[x] != self.v_reg[y] {
            self.pc = self.pc.wrapping_add(2);
        }
    }

    /// Annn: set the address register, advancing the counter here too.
    fn opcode_ld(&mut self)
        requires
            old(self).wf(),
        ensures
            final(self).wf(),
            rel_ld(*old(self), *final(self)),
    {
        self.i_addr = op_nnn(self.opcode);
        self.pc = self.pc.wrapping_add(2);
    }

    /// Bnnn: jump to nnn + V0, landing exactly on it.
    fn opcode_jp_v0(&mut self)
        requires
            old(self).wf(),
        ensures
            final(self).wf(),
            rel_jp_v0(*old(self), *final(self)),
    {
        self.pc = op_nnn(self.opcode) + self.v_reg[0] as u16;
    }

    /// Cxkk with the random byte already drawn: Vx := `byte` & kk. A
    /// host that wants reproducible runs can drive this directly with a
    /// byte source of its own.
    pub fn opcode_rnd_with(&mut self, byte: u8)
        requires
            old(self).wf(),
        ensures
            final(self).wf(),
            rel_rnd(*old(self), *final(self), byte),
    {
        let x = op_x(self.opcode);
        self.v_reg[x] = byte & op_kk(self.opcode);
    }

    /// Cxkk: mask a byte from the random source into Vx. The byte is
    /// outside anyone's control, so only its masked store is promised.
    fn opcode_rnd(&mut self)
        requires
            old(self).wf(),
        ensures
            final(self).wf(),
            exists|b: u8| rel_rnd(*old(self), *final(self), b),
    {
        let n = random_byte();
        self.opcode_rnd_with(n);
        proof {
            assert(rel_rnd(*old(self), *self, n));
        }
    }

    /// Ex9E: skip when the key numbered by Vx is down; a Vx outside the
    /// sixteen keys is a fault.
    fn opcode_skp(&mut self) -> (r: Result<(), Chip8Error>)
        requires
            old(self).wf(),
        ensures
            final(self).wf(),
            old(self).v_reg@[crate::opcode::x_of(old(self).opcode) as int] >= 16 ==> {
                &&& r == Err::<(), Chip8Error>(Chip8Error::BadKeyIndex)
                &&& *final(self) == *old(self)
            },
            old(self).v_reg@[crate::opcode::x_of(old(self).opcode) as int] < 16 ==> {
                &&& r == Ok::<(), Chip8Error>(())
                &&& rel_skip(*old(self), *final(self), cond_skp(*old(self)))
            },
    {
        let x = op_x(self.opcode);
        let key = self.v_reg[x] as usize;
        if key >= 16 {
            return Err(Chip8Error::BadKeyIndex);
        }
        if self.keypad[key] == 1 {
            self.pc = self.pc.wrapping_add(2);
        }
        Ok(())
    }

    /// ExA1: skip when the key numbered by Vx is up; a Vx outside the
    /// sixteen keys is a fault.
    fn opcode_sknp(&mut self) -> (r: Result<(), Chip8Error>)
        requires
            old(self).wf(),
        ensures
            final(self).wf(),
            old(self).v_reg@[crate::opcode::x_of(old(self).opcode) as int] >= 16 ==> {
                &&& r == Err::<(), Chip8Error>(Chip8Error::BadKeyIndex)
                &&& *final(self) == *old(self)
            },
            old(self).v_reg@[crate::opcode::x_of(old(self).opcode) as int] < 16 ==> {
                &&& r == Ok::<(), Chip8Error>(())
                &&& rel_skip(*old(self), *final(self), cond_sknp(*old(self)))
            },
    {
        let x = op_x(self.opcode);
        let key = self.v_reg[x] as usize;
        if key >= 16 {
            return Err(Chip8Error::BadKeyIndex);
        }
        if self.keypad[key] == 0 {
            self.pc = self.pc.wrapping_add(2);
        }
        Ok(())
    }

    /// Fx07: set Vx to the delay timer.
    fn opcode_get_dt(&mut self)
        requires
            old(self).wf(),
        ensures
            final(self).wf(),
            rel_get_dt(*old(self), *final(self)),
    {
        let x = op_x(self.opcode);
        self.v_reg[x] = self.delay_timer;
    }

    /// The lowest pressed key number at or above `k`, or 16 when no key
    /// from `k` up is down.
    fn find_pressed_key(&self, k: usize) -> (r: usize)
        requires
            k <= 16,
        ensures
            r == lowest_key(self.keypad@, k as int),
            r <= 16,
        decreases 16 - k,
    {
        if k >= 16 {
            16
        } else if self.keypad[k] == 1 {
            k
        } else {
            self.find_pressed_key(k + 1)
        }
    }

    /// Fx0A: block until a key is down. With a key down, its number
    /// lands in Vx and execution falls through; with none, the machine
    /// reports itself blocked and the cycle driver leaves the counter in
    /// place so the instruction runs again next cycle.
    fn opcode_waitkey(&mut self) -> (f: Flow)
        requires
            old(self).wf(),
        ensures
            final(self).wf(),
            lowest_key(old(self).keypad@, 0) < 16 ==> {
                &&& f == Flow::Advance
                &&& rel_waitkey(*old(self), *final(self))
            },
            lowest_key(old(self).keypad@, 0) >= 16 ==> {
                &&& f == Flow::WaitKey
                &&& *final(self) == *old(self)
            },
    {
        let k = self.find_pressed_key(0);
        if k < 16 {
            let x = op_x(self.opcode);
            self.v_reg[x] = k as u8;
            Flow::Advance
        } else {
            Flow::WaitKey
        }
    }

    /// Fx15: set the delay timer to Vx.
    fn opcode_set_dt(&mut self)
        requires
            old(self).wf(),
        ensures
            final(self).wf(),
            rel_set_dt(*old(self), *final(self)),
    {
        let x = op_x(self.opcode);
        self.delay_timer = self.v_reg[x];
    }

    /// Fx18: set the sound timer to Vx.
    fn opcode_set_st(&mut self)
        requires
            old(self).wf(),
        ensures
            final(self).wf(),
            rel_set_st(*old(self), *final(self)),
    {
        let x = op_x(self.opcode);
        self.sound_timer = self.v_reg[x];
    }

    /// Fx1E: add Vx to the address register, wrapping at 16 bits.
    fn opcode_add_i(&mut self)
        requires
            old(self).wf(),
        ensures
            final(self).wf(),
            rel_add_i(*old(self), *final(self)),
    {
        let x = op_x(self.opcode);
        self.i_addr = self.i_addr.wrapping_add(self.v_reg[x] as u16);
    }

    /// Fx29: point the address register at the glyph sprite for the
    /// digit in the low nibble of Vx.
    fn opcode_set_sprite(&mut self)
        requires
            old(self).wf(),
        ensures
            final(self).wf(),
            rel_set_sprite(*old(self), *final(self)),
    {
        let x = op_x(self.opcode);
        let digit = (self.v_reg[x] & 0xF) as u16;
        // Digit sprites are 5 bytes long from the bottom of memory, so
        // the address is five times the digit.
        self.i_addr = 5 * digit;
    }

    /// Fx33: store the decimal digits of Vx at I, I+1, I+2, faulting
    /// before any write if the three bytes do not fit in memory.
    fn opcode_bcd_vx(&mut self) -> (r: Result<(), Chip8Error>)
        requires
            old(self).wf(),
        ensures
            final(self).wf(),
            old(self).i_addr + 3 > 4096 ==> {
                &&& r == Err::<(), Chip8Error>(Chip8Error::AddressOutOfRange)
                &&& *final(self) == *old(self)
            },
            old(self).i_addr + 3 <= 4096 ==> {
                &&& r == Ok::<(), Chip8Error>(())
                &&& rel_bcd(*old(self), *final(self))
            },
    {
        let i = self.i_addr as usize;
        if i + 3 > 4096 {
            return Err(Chip8Error::AddressOutOfRange);
        }
        let x = op_x(self.opcode);
        let vx = self.v_reg[x];
        self.memory[i] = vx / 100;
        self.memory[i + 1] = (vx / 10) % 10;
        self.memory[i + 2] = vx % 10;
        Ok(())
    }

    /// Fx55: store V0 through Vx into memory at I, faulting before any
    /// write if the block does not fit.
    fn opcode_store_vx(&mut self) -> (r: Result<(), Chip8Error>)
        requires
            old(self).wf(),
        ensures
            final(self).wf(),
            old(self).i_addr + crate::opcode::x_of(old(self).opcode) + 1 > 4096 ==> {
                &&& r == Err::<(), Chip8Error>(Chip8Error::AddressOutOfRange)
                &&& *final(self) == *old(self)
            },
            old(self).i_addr + crate::opcode::x_of(old(self).opcode) + 1 <= 4096 ==> {
                &&& r == Ok::<(), Chip8Error>(())
                &&& rel_store(*old(self), *final(self))
            },
    {
        let x = op_x(self.opcode);
        let i = self.i_addr as usize;
        if i + x + 1 > 4096 {
            return Err(Chip8Error::AddressOutOfRange);
        }
        let mut j: usize = 0;
        while j < x + 1
            invariant
                j <= x + 1,
                x < 16,
                x == crate::opcode::x_of(self.opcode),
                i == self.i_addr,
                i + x + 1 <= 4096,
                *self == (Chip8 { memory: self.memory, ..*old(self) }),
                forall|k: int| 0 <= k < j ==> self.memory@[i + k] == self.v_reg@[k],
                forall|a: int|
                    0 <= a < 4096 && !(i <= a < i + j) ==> self.memory@[a] == old(self).memory@[a],
            decreases x + 1 - j,
        {
            self.memory[i + j] = self.v_reg[j];
            j += 1;
        }
        proof {
            assert forall|k: int| 0 <= k <= crate::opcode::x_of(old(self).opcode) implies self.memory@[old(self).i_addr + k] == old(self).v_reg@[k] by {
                assert(0 <= k < j);
                assert(self.memory@[i + k] == self.v_reg@[k]);
            }
        }
        Ok(())
    }

    /// Fx65: fill V0 through Vx from memory at I, faulting before any
    /// write if the block does not fit.
    fn opcode_read_vx(&mut self) -> (r: Result<(), Chip8Error>)
        requires
            old(self).wf(),
        ensures
            final(self).wf(),
            old(self).i_addr + crate::opcode::x_of(old(self).opcode) + 1 > 4096 ==> {
                &&& r == Err::<(), Chip8Error>(Chip8Error::AddressOutOfRange)
                &&& *final(self) == *old(self)
            },
            old(self).i_addr + crate::opcode::x_of(old(self).opcode) + 1 <= 4096 ==> {
                &&& r == Ok::<(), Chip8Error>(())
                &&& rel_read(*old(self), *final(self))
            },
    {
        let x = op_x(self.opcode);
        let i = self.i_addr as usize;
        if i + x + 1 > 4096 {
            return Err(Chip8Error::AddressOutOfRange);
        }
        let mut j: usize = 0;
        while j < x + 1
            invariant
                j <= x + 1,
                x < 16,
                x == crate::opcode::x_of(self.opcode),
                i == self.i_addr,
                i + x + 1 <= 4096,
                *self == (Chip8 { v_reg: self.v_reg, ..*old(self) }),
                forall|k: int| 0 <= k < j ==> self.v_reg@[k] == self.memory@[i + k],
                forall|k: int| j <= k < 16 ==> self.v_reg@[k] == old(self).v_reg@[k],
            decreases x + 1 - j,
        {
            self.v_reg[j] = self.memory[i + j];
            j += 1;
        }
        proof {
            assert forall|k: int| 0 <= k <= crate::opcode::x_of(old(self).opcode) implies self.v_reg@[k] == old(self).memory@[old(self).i_addr + k] by {
                assert(0 <= k < j);
                assert(self.v_reg@[k] == self.memory@[i + k]);
            }
        }
        Ok(())
    }

    /// Tick both timers once; the returned tone request reports whether
    /// the sound timer was running when the tick began.
    fn update_timers(&mut self) -> (tone: bool)
        ensures
            *final(self) == ticked(*old(self)),
            tone == (old(self).sound_timer > 0),
    {
        let tone = self.sound_timer > 0;
        if self.delay_timer > 0 {
            self.delay_timer -= 1;
        }
        if self.sound_timer > 0 {
            self.sound_timer -= 1;
        }
        tone
    }
}

/// The sprite bits already processed when the draw loops stand at row
/// `rr`, column `cc`: every bit of the rows before `rr` plus the first
/// `cc` bits of row `rr`. Holds when one of them is 1 and lands on
/// pixel `p`.
spec fn covered_upto(pre: Chip8, p: int, rr: int, cc: int) -> bool {
    let x0 = pre.v_reg@[x_of(pre.opcode) as int] as int;
    let y0 = pre.v_reg@[y_of(pre.opcode) as int] as int;
    let n = n_of(pre.opcode) as int;
    let base = pre.i_addr as int;
    exists|r: int, c: int|
        {
            &&& 0 <= r < n
            &&& 0 <= c < 8
            &&& (r < rr || (r == rr && c < cc))
            &&& y0 + r < DISPLAY_HEIGHT
            &&& #[trigger] sprite_bit(pre.memory@, base, r, c)
            &&& p == (y0 + r) * (DISPLAY_WIDTH as int) + (x0 + c) % (DISPLAY_WIDTH as int)
        }
}

/// One of the sprite bits processed so far is 1 and lands on a pixel
/// that was on before the draw began.
spec fn collision_upto(pre: Chip8, rr: int, cc: int) -> bool {
    let x0 = pre.v_reg@[x_of(pre.opcode) as int] as int;
    let y0 = pre.v_reg@[y_of(pre.opcode) as int] as int;
    let n = n_of(pre.opcode) as int;
    let base = pre.i_addr as int;
    exists|r: int, c: int|
        {
            &&& 0 <= r < n
            &&& 0 <= c < 8
            &&& (r < rr || (r == rr && c < cc))
            &&& y0 + r < DISPLAY_HEIGHT
            &&& #[trigger] sprite_bit(pre.memory@, base, r, c)
            &&& pixel_on(
                pre.display@,
                (y0 + r) * (DISPLAY_WIDTH as int) + (x0 + c) % (DISPLAY_WIDTH as int),
            )
        }
}

impl Chip8 {
    /// Whether the leading byte of pixel `p` encodes "on".
    fn pixel_is_on(&self, p: usize) -> (b: bool)
        requires
            p < DISPLAY_WIDTH * DISPLAY_HEIGHT,
        ensures
            b == pixel_on(self.display@, p as int),
    {
        self.display[p * 3] == 255
    }

    /// Toggle pixel `p`, rewriting its whole triplet, so the pixel ends
    /// legally encoded whatever its bytes held.
    fn pixel_flip(&mut self, p: usize)
        requires
            p < DISPLAY_WIDTH * DISPLAY_HEIGHT,
        ensures
            *final(self) == (Chip8 { display: final(self).display, ..*old(self) }),
            pixel_on(final(self).display@, p as int) == !pixel_on(old(self).display@, p as int),
            crate::machine::pixel_ok(final(self).display@, p as int),
            forall|q: int|
                0 <= q < DISPLAY_WIDTH * DISPLAY_HEIGHT && q != p ==> pixel_on(
                    final(self).display@,
                    q,
                ) == pixel_on(old(self).display@, q),
            forall|q: int|
                0 <= q < DISPLAY_WIDTH * DISPLAY_HEIGHT && q != p && crate::machine::pixel_ok(
                    old(self).display@,
                    q,
                ) ==> crate::machine::pixel_ok(final(self).display@, q),
    {
        let t = p * 3;
        let v: u8 = if self.display[t] == 255 {
            0
        } else {
            255
        };
        self.display[t] = v;
        self.display[t + 1] = v;
        self.display[t + 2] = v;
        proof {
            assert forall|q: int|
                0 <= q < DISPLAY_WIDTH * DISPLAY_HEIGHT && q != p implies pixel_on(
                self.display@,
                q,
            ) == pixel_on(old(self).display@, q) && (crate::machine::pixel_ok(
                old(self).display@,
                q,
            ) ==> crate::machine::pixel_ok(self.display@, q)) by {
                assert(self.display@[3 * q] == old(self).display@[3 * q]);
                assert(self.display@[3 * q + 1] == old(self).display@[3 * q + 1]);
                assert(self.display@[3 * q + 2] == old(self).display@[3 * q + 2]);
            }
        }
    }

    /// Dxyn: draw the n-row sprite at memory address I to the screen
    /// position taken from Vx and Vy. Columns wrap around the row, rows
    /// past the bottom edge are clipped, each 1-bit flips its pixel
    /// under XOR, and VF reports whether any flipped pixel was already
    /// on. A sprite whose rows do not fit in memory is a fault that
    /// draws nothing.
    fn opcode_drw(&mut self) -> (r: Result<(), Chip8Error>)
        requires
            old(self).wf(),
        ensures
            final(self).wf(),
            old(self).i_addr + n_of(old(self).opcode) > 4096 ==> {
                &&& r == Err::<(), Chip8Error>(Chip8Error::AddressOutOfRange)
                &&& *final(self) == *old(self)
            },
            old(self).i_addr + n_of(old(self).opcode) <= 4096 ==> {
                &&& r == Ok::<(), Chip8Error>(())
                &&& rel_drw(*old(self), *final(self))
            },
    {
        let n = op_n(self.opcode);
        let i = self.i_addr as usize;
        if i + n > 4096 {
            return Err(Chip8Error::AddressOutOfRange);
        }
        let x = op_x(self.opcode);
        let y = op_y(self.opcode);
        let x0 = self.v_reg[x] as usize;
        let y0 = self.v_reg[y] as usize;
        let base_col = x0 % DISPLAY_WIDTH;
        let mut collided = false;
        let ghost pre = *old(self);
        let mut row: usize = 0;
        while row < n
            invariant
                pre == *old(self),
                pre.wf(),
                i == pre.i_addr,
                n == n_of(pre.opcode),
                n < 16,
                i + n <= 4096,
                x0 == pre.v_reg@[x_of(pre.opcode) as int],
                y0 == pre.v_reg@[y_of(pre.opcode) as int],
                base_col == (x0 as int) % (DISPLAY_WIDTH as int),
                base_col < DISPLAY_WIDTH,
                row <= n,
                *self == (Chip8 { display: self.display, ..pre }),
                display_valid(self.display@),
                collided == collision_upto(pre, row as int, 0),
                forall|p: int|
                    0 <= p < DISPLAY_WIDTH * DISPLAY_HEIGHT ==> (#[trigger] pixel_on(
                        self.display@,
                        p,
                    ) <==> (pixel_on(pre.display@, p) != covered_upto(pre, p, row as int, 0))),
            decreases n - row,
        {
            let sprite_row = self.memory[i + row];
            let py = y0 + row;
            let mut col: usize = 0;
            while col < 8
                invariant
                    pre == *old(self),
                    pre.wf(),
                    i == pre.i_addr,
                    n == n_of(pre.opcode),
                    n < 16,
                    i + n <= 4096,
                    x0 == pre.v_reg@[x_of(pre.opcode) as int],
                    y0 == pre.v_reg@[y_of(pre.opcode) as int],
                    base_col == (x0 as int) % (DISPLAY_WIDTH as int),
                    base_col < DISPLAY_WIDTH,
                    row < n,
                    col <= 8,
                    py == y0 + row,
                    sprite_row == pre.memory@[i + row],
                    *self == (Chip8 { display: self.display, ..pre }),
                    display_valid(self.display@),
                    collided == collision_upto(pre, row as int, col as int),
                    forall|p: int|
                        0 <= p < DISPLAY_WIDTH * DISPLAY_HEIGHT ==> (#[trigger] pixel_on(
                            self.display@,
                            p,
                        ) <==> (pixel_on(pre.display@, p) != covered_upto(
                            pre,
                            p,
                            row as int,
                            col as int,
                        ))),
                decreases 8 - col,
            {
                let on_bit = (sprite_row & (0x80u8 >> col)) != 0;
                proof {
                    assert(on_bit == sprite_bit(pre.memory@, pre.i_addr as int, row as int, col as int));
                }
                if on_bit && py < DISPLAY_HEIGHT {
                    let pcol = if base_col + col < DISPLAY_WIDTH {
                        base_col + col
                    } else {
                        base_col + col - DISPLAY_WIDTH
                    };
                    let target = py * DISPLAY_WIDTH + pcol;
                    proof {
                        lemma_wrap_col(x0 as int, col as int);
                        assert(target == (y0 + row) * (DISPLAY_WIDTH as int) + (x0 + col) % (
                        DISPLAY_WIDTH as int));
                        assert(target < DISPLAY_WIDTH * DISPLAY_HEIGHT);
                        // No earlier bit of this sprite lands on the same
                        // pixel: rows differ by position, columns by the
                        // wrap arithmetic.
                        assert(!covered_upto(pre, target as int, row as int, col as int)) by {
                            if covered_upto(pre, target as int, row as int, col as int) {
                                let (r, c) = choose|r: int, c: int|
                                    {
                                        &&& 0 <= r < n_of(pre.opcode) as int
                                        &&& 0 <= c < 8
                                        &&& (r < row as int || (r == row as int && c < col as int))
                                        &&& y0 + r < DISPLAY_HEIGHT
                                        &&& #[trigger] sprite_bit(
                                            pre.memory@,
                                            pre.i_addr as int,
                                            r,
                                            c,
                                        )
                                        &&& target == (y0 + r) * (DISPLAY_WIDTH as int) + (x0 + c)
                                            % (DISPLAY_WIDTH as int)
                                    };
                                lemma_wrap_col(x0 as int, c);
                                assert(false);
                            }
                        }
                    }
                    let was_on = self.pixel_is_on(target);
                    if was_on {
                        collided = true;
                    }
                    self.pixel_flip(target);
                    proof {
                        // The processed prefix grows by exactly this bit.
                        assert(covered_upto(pre, target as int, row as int, col as int + 1));
                        assert forall|p: int|
                            0 <= p < DISPLAY_WIDTH * DISPLAY_HEIGHT && p != target implies
                        covered_upto(pre, p, row as int, col as int + 1) == covered_upto(
                            pre,
                            p,
                            row as int,
                            col as int,
                        ) by {
                            if covered_upto(pre, p, row as int, col as int + 1) {
                                let (r, c) = choose|r: int, c: int|
                                    {
                                        &&& 0 <= r < n_of(pre.opcode) as int
                                        &&& 0 <= c < 8
                                        &&& (r < row as int || (r == row as int && c < col as int
                                            + 1))
                                        &&& y0 + r < DISPLAY_HEIGHT
                                        &&& #[trigger] sprite_bit(
                                            pre.memory@,
                                            pre.i_addr as int,
                                            r,
                                            c,
                                        )
                                        &&& p == (y0 + r) * (DISPLAY_WIDTH as int) + (x0 + c) % (
                                        DISPLAY_WIDTH as int)
                                    };
                                if r == row as int && c == col as int {
                                    assert(p == target);
                                } else {
                                    assert(covered_upto(pre, p, row as int, col as int));
                                }
                            }
                        }
                        if was_on {
                            assert(pixel_on(pre.display@, target as int));
                            assert(collision_upto(pre, row as int, col as int + 1));
                        } else {
                            assert(!pixel_on(pre.display@, target as int));
                            if collision_upto(pre, row as int, col as int + 1) {
                                    let (r, c) = choose|r: int, c: int|
                                        {
                                            &&& 0 <= r < n_of(pre.opcode) as int
                                            &&& 0 <= c < 8
                                            &&& (r < row as int || (r == row as int && c < col
                                                as int + 1))
                                            &&& y0 + r < DISPLAY_HEIGHT
                                            &&& #[trigger] sprite_bit(
                                                pre.memory@,
                                                pre.i_addr as int,
                                                r,
                                                c,
                                            )
                                            &&& pixel_on(
                                                pre.display@,
                                                (y0 + r) * (DISPLAY_WIDTH as int) + (x0 + c) % (
                                                DISPLAY_WIDTH as int),
                                            )
                                        };
                                    if r == row as int && c == col as int {
                                        lemma_wrap_col(x0 as int, c);
                                        assert(false);
                                    } else {
                                        assert(collision_upto(pre, row as int, col as int));
                                    }
                            }
                            assert(collision_upto(pre, row as int, col as int + 1)
                                == collision_upto(pre, row as int, col as int));
                        }
                    }
                } else {
                    proof {
                        // A 0-bit or a clipped row leaves every pixel and
                        // the collision flag as they were.
                        assert forall|p: int|
                            0 <= p < DISPLAY_WIDTH * DISPLAY_HEIGHT implies covered_upto(
                            pre,
                            p,
                            row as int,
                            col as int + 1,
                        ) == covered_upto(pre, p, row as int, col as int) by {
                            if covered_upto(pre, p, row as int, col as int + 1) {
                                let (r, c) = choose|r: int, c: int|
                                    {
                                        &&& 0 <= r < n_of(pre.opcode) as int
                                        &&& 0 <= c < 8
                                        &&& (r < row as int || (r == row as int && c < col as int
                                            + 1))
                                        &&& y0 + r < DISPLAY_HEIGHT
                                        &&& #[trigger] sprite_bit(
                                            pre.memory@,
                                            pre.i_addr as int,
                                            r,
                                            c,
                                        )
                                        &&& p == (y0 + r) * (DISPLAY_WIDTH as int) + (x0 + c) % (
                                        DISPLAY_WIDTH as int)
                                    };
                                if r == row as int && c == col as int {
                                    assert(false);
                                } else {
                                    assert(covered_upto(pre, p, row as int, col as int));
                                }
                            }
                        }
                        if collision_upto(pre, row as int, col as int + 1) {
                            let (r, c) = choose|r: int, c: int|
                                {
                                    &&& 0 <= r < n_of(pre.opcode) as int
                                    &&& 0 <= c < 8
                                    &&& (r < row as int || (r == row as int && c < col as int + 1))
                                    &&& y0 + r < DISPLAY_HEIGHT
                                    &&& #[trigger] sprite_bit(pre.memory@, pre.i_addr as int, r, c)
                                    &&& pixel_on(
                                        pre.display@,
                                        (y0 + r) * (DISPLAY_WIDTH as int) + (x0 + c) % (
                                        DISPLAY_WIDTH as int),
                                    )
                                };
                            if r == row as int && c == col as int {
                                assert(false);
                            } else {
                                assert(collision_upto(pre, row as int, col as int));
                            }
                        }
                        assert(collision_upto(pre, row as int, col as int + 1) == collision_upto(
                            pre,
                            row as int,
                            col as int,
                        ));
                    }
                }
                col += 1;
            }
            proof {
                // A fully processed row is the same prefix as the start
                // of the next row.
                assert forall|p: int|
                    0 <= p < DISPLAY_WIDTH * DISPLAY_HEIGHT implies covered_upto(
                    pre,
                    p,
                    row as int + 1,
                    0,
                ) == covered_upto(pre, p, row as int, 8) by {
                    if covered_upto(pre, p, row as int + 1, 0) {
                        let (r, c) = choose|r: int, c: int|
                            {
                                &&& 0 <= r < n_of(pre.opcode) as int
                                &&& 0 <= c < 8
                                &&& (r < row as int + 1 || (r == row as int + 1 && c < 0))
                                &&& y0 + r < DISPLAY_HEIGHT
                                &&& #[trigger] sprite_bit(pre.memory@, pre.i_addr as int, r, c)
                                &&& p == (y0 + r) * (DISPLAY_WIDTH as int) + (x0 + c) % (
                                DISPLAY_WIDTH as int)
                            };
                        assert(covered_upto(pre, p, row as int, 8));
                    }
                    if covered_upto(pre, p, row as int, 8) {
                        let (r, c) = choose|r: int, c: int|
                            {
                                &&& 0 <= r < n_of(pre.opcode) as int
                                &&& 0 <= c < 8
                                &&& (r < row as int || (r == row as int && c < 8))
                                &&& y0 + r < DISPLAY_HEIGHT
                                &&& #[trigger] sprite_bit(pre.memory@, pre.i_addr as int, r, c)
                                &&& p == (y0 + r) * (DISPLAY_WIDTH as int) + (x0 + c) % (
                                DISPLAY_WIDTH as int)
                            };
                        assert(covered_upto(pre, p, row as int + 1, 0));
                    }
                }
                if collision_upto(pre, row as int + 1, 0) {
                    let (r, c) = choose|r: int, c: int|
                        {
                            &&& 0 <= r < n_of(pre.opcode) as int
                            &&& 0 <= c < 8
                            &&& (r < row as int + 1 || (r == row as int + 1 && c < 0))
                            &&& y0 + r < DISPLAY_HEIGHT
                            &&& #[trigger] sprite_bit(pre.memory@, pre.i_addr as int, r, c)
                            &&& pixel_on(
                                pre.display@,
                                (y0 + r) * (DISPLAY_WIDTH as int) + (x0 + c) % (
                                DISPLAY_WIDTH as int),
                            )
                        };
                    assert(collision_upto(pre, row as int, 8));
                }
                if collision_upto(pre, row as int, 8) {
                    let (r, c) = choose|r: int, c: int|
                        {
                            &&& 0 <= r < n_of(pre.opcode) as int
                            &&& 0 <= c < 8
                            &&& (r < row as int || (r == row as int && c < 8))
                            &&& y0 + r < DISPLAY_HEIGHT
                            &&& #[trigger] sprite_bit(pre.memory@, pre.i_addr as int, r, c)
                            &&& pixel_on(
                                pre.display@,
                                (y0 + r) * (DISPLAY_WIDTH as int) + (x0 + c) % (
                                DISPLAY_WIDTH as int),
                            )
                        };
                    assert(collision_upto(pre, row as int + 1, 0));
                }
                assert(collision_upto(pre, row as int + 1, 0) == collision_upto(
                    pre,
                    row as int,
                    8,
                ));
            }
            row += 1;
        }
        proof {
            // The whole sprite processed is exactly the draw relation's
            // cover and collision predicates.
            assert forall|p: int|
                0 <= p < DISPLAY_WIDTH * DISPLAY_HEIGHT implies covered_upto(
                pre,
                p,
                n as int,
                0,
            ) == draw_covers(pre, p) by {
                if covered_upto(pre, p, n as int, 0) {
                    let (r, c) = choose|r: int, c: int|
                        {
                            &&& 0 <= r < n_of(pre.opcode) as int
                            &&& 0 <= c < 8
                            &&& (r < n as int || (r == n as int && c < 0))
                            &&& y0 + r < DISPLAY_HEIGHT
                            &&& #[trigger] sprite_bit(pre.memory@, pre.i_addr as int, r, c)
                            &&& p == (y0 + r) * (DISPLAY_WIDTH as int) + (x0 + c) % (
                            DISPLAY_WIDTH as int)
                        };
                    assert(draw_covers(pre, p));
                }
                if draw_covers(pre, p) {
                    let (r, c) = choose|r: int, c: int|
                        {
                            &&& 0 <= r < n_of(pre.opcode) as int
                            &&& 0 <= c < 8
                            &&& y0 + r < DISPLAY_HEIGHT
                            &&& #[trigger] sprite_bit(pre.memory@, pre.i_addr as int, r, c)
                            &&& p == (y0 + r) * (DISPLAY_WIDTH as int) + (x0 + c) % (
                            DISPLAY_WIDTH as int)
                        };
                    assert(covered_upto(pre, p, n as int, 0));
                }
            }
            if collision_upto(pre, n as int, 0) {
                let (r, c) = choose|r: int, c: int|
                    {
                        &&& 0 <= r < n_of(pre.opcode) as int
                        &&& 0 <= c < 8
                        &&& (r < n as int || (r == n as int && c < 0))
                        &&& y0 + r < DISPLAY_HEIGHT
                        &&& #[trigger] sprite_bit(pre.memory@, pre.i_addr as int, r, c)
                        &&& pixel_on(
                            pre.display@,
                            (y0 + r) * (DISPLAY_WIDTH as int) + (x0 + c) % (DISPLAY_WIDTH as int),
                        )
                    };
                assert(draw_collision(pre));
            }
            if draw_collision(pre) {
                let (r, c) = choose|r: int, c: int|
                    {
                        &&& 0 <= r < n_of(pre.opcode) as int
                        &&& 0 <= c < 8
                        &&& y0 + r < DISPLAY_HEIGHT
                        &&& #[trigger] sprite_bit(pre.memory@, pre.i_addr as int, r, c)
                        &&& pixel_on(
                            pre.display@,
                            (y0 + r) * (DISPLAY_WIDTH as int) + (x0 + c) % (DISPLAY_WIDTH as int),
                        )
                    };
                assert(collision_upto(pre, n as int, 0));
            }
            assert(collided == draw_collision(pre));
        }
        self.v_reg[15] = if collided {
            1
        } else {
            0
        };
        Ok(())
    }

    /// Run the matching handler for the word in the opcode register and
    /// report how the program counter should move, or the fault the
    /// instruction raised. An unmatched word is an unknown-opcode fault;
    /// every fault leaves the machine exactly as it was.
    #[verifier::rlimit(60)]
    pub fn decode_opcode(&mut self) -> (r: Result<Flow, Chip8Error>)
        requires
            old(self).wf(),
        ensures
            final(self).wf(),
            decoded(*old(self), *final(self), r),
    {
        match self.opcode & 0xF000 {
            0x0000 => match self.opcode & 0x00FF {
                0x00E0 => {
                    self.opcode_cls();
                    Ok(Flow::Advance)
                },
                0x00EE => match self.opcode_ret() {
                    Ok(()) => Ok(Flow::Advance),
                    Err(e) => Err(e),
                },
                _ => Err(Chip8Error::UnknownOpcode(self.opcode)),
            },
            0x1000 => {
                self.opcode_jp();
                Ok(Flow::Jump)
            },
            0x2000 => match self.opcode_call() {
                Ok(()) => Ok(Flow::Jump),
                Err(e) => Err(e),
            },
            0x3000 => {
                self.opcode_se_byte();
                Ok(Flow::Advance)
            },
            0x4000 => {
                self.opcode_sne_byte();
                Ok(Flow::Advance)
            },
            0x5000 => {
                if self.opcode & 0x000F == 0x0000 {
                    self.opcode_se_vx();
                    Ok(Flow::Advance)
                } else {
                    Err(Chip8Error::UnknownOpcode(self.opcode))
                }
            },
            0x6000 => {
                self.opcode_ld_byte();
                Ok(Flow::Advance)
            },
            0x7000 => {
                self.opcode_add_byte();
                Ok(Flow::Advance)
            },
            0x8000 => match self.opcode & 0x000F {
                0x0000 => {
                    self.opcode_ld_vy();
                    Ok(Flow::Advance)
                },
                0x0001 => {
                    self.opcode_or();
                    Ok(Flow::Advance)
                },
                0x0002 => {
                    self.opcode_and();
                    Ok(Flow::Advance)
                },
                0x0003 => {
                    self.opcode_xor();
                    Ok(Flow::Advance)
                },
                0x0004 => {
                    self.opcode_add();
                    Ok(Flow::Advance)
                },
                0x0005 => {
                    self.opcode_sub();
                    Ok(Flow::Advance)
                },
                0x0006 => {
                    self.opcode_shr();
                    Ok(Flow::Advance)
                },
                0x0007 => {
                    self.opcode_subn();
                    Ok(Flow::Advance)
                },
                0x000E => {
                    self.opcode_shl();
                    Ok(Flow::Advance)
                },
                _ => Err(Chip8Error::UnknownOpcode(self.opcode)),
            },
            0x9000 => {
                if self.opcode & 0x000F == 0x0000 {
                    self.opcode_sne();
                    Ok(Flow::Advance)
                } else {
                    Err(Chip8Error::UnknownOpcode(self.opcode))
                }
            },
            0xA000 => {
                self.opcode_ld();
                Ok(Flow::Advance)
            },
            0xB000 => {
                self.opcode_jp_v0();
                Ok(Flow::Jump)
            },
            0xC000 => {
                self.opcode_rnd();
                Ok(Flow::Advance)
            },
            0xD000 => match self.opcode_drw() {
                Ok(()) => Ok(Flow::Advance),
                Err(e) => Err(e),
            },
            0xE000 => match self.opcode & 0x00FF {
                0x009E => match self.opcode_skp() {
                    Ok(()) => Ok(Flow::Advance),
                    Err(e) => Err(e),
                },
                0x00A1 => match self.opcode_sknp() {
                    Ok(()) => Ok(Flow::Advance),
                    Err(e) => Err(e),
                },
                _ => Err(Chip8Error::UnknownOpcode(self.opcode)),
            },
            0xF000 => match self.opcode & 0x00FF {
                0x0007 => {
                    self.opcode_get_dt();
                    Ok(Flow::Advance)
                },
                0x000A => Ok(self.opcode_waitkey()),
                0x0015 => {
                    self.opcode_set_dt();
                    Ok(Flow::Advance)
                },
                0x0018 => {
                    self.opcode_set_st();
                    Ok(Flow::Advance)
                },
                0x001E => {
                    self.opcode_add_i();
                    Ok(Flow::Advance)
                },
                0x0029 => {
                    self.opcode_set_sprite();
                    Ok(Flow::Advance)
                },
                0x0033 => match self.opcode_bcd_vx() {
                    Ok(()) => Ok(Flow::Advance),
                    Err(e) => Err(e),
                },
                0x0055 => match self.opcode_store_vx() {
                    Ok(()) => Ok(Flow::Advance),
                    Err(e) => Err(e),
                },
                0x0065 => match self.opcode_read_vx() {
                    Ok(()) => Ok(Flow::Advance),
                    Err(e) => Err(e),
                },
                _ => Err(Chip8Error::UnknownOpcode(self.opcode)),
            },
            _ => Err(Chip8Error::UnknownOpcode(self.opcode)),
        }
    }

    /// One whole cycle: fetch the word at the program counter, run its
    /// handler, advance past it on a fall-through, and tick both
    /// timers. A fetch past the end of memory or a fault from the
    /// handler is reported instead, and a decode fault leaves every
    /// part of the state except the opcode register untouched.
    pub fn emulate_cycle(&mut self) -> (r: Result<StepOutcome, Chip8Error>)
        requires
            old(self).wf(),
        ensures
            final(self).wf(),
            old(self).pc + 1 >= 4096 ==> {
                &&& r == Err::<StepOutcome, Chip8Error>(Chip8Error::AddressOutOfRange)
                &&& *final(self) == *old(self)
            },
            old(self).pc + 1 < 4096 ==> match r {
                Ok(out) => stepped(*old(self), *final(self), out),
                Err(e) => decoded(
                    with_opcode(*old(self), fetch_word(*old(self))),
                    *final(self),
                    Err::<Flow, Chip8Error>(e),
                ),
            },
    {
        match self.fetch_opcode() {
            Ok(()) => (),
            Err(e) => {
                return Err(e);
            },
        }
        let f = match self.decode_opcode() {
            Ok(f) => f,
            Err(e) => {
                return Err(e);
            },
        };
        let ghost mid = *self;
        if f == Flow::Advance {
            self.pc = self.pc.wrapping_add(2);
        }
        let tone = self.update_timers();
        let out = StepOutcome { tone, waiting: f == Flow::WaitKey };
        proof {
            assert(*self == ticked(advanced(mid, f)));
            assert(stepped(*old(self), *self, out));
        }
        Ok(out)
    }
}

} // verus!

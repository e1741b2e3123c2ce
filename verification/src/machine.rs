//! The machine state: memory, register file, address register, program
//! counter, call stack, timers, keypad and framebuffer, together with
//! reset, program loading, keypad writes and the pixel accessors.
//!
//! Every pixel of the framebuffer is stored as three repeated intensity
//! bytes, each 0 or 255; a triplet whose bytes disagree is a representation
//! violation and is reported as an error, never silently accepted.

use vstd::prelude::*;

use crate::font::{font_byte, fontset_loaded};

verus! {

/// Width of the framebuffer in pixels.
pub const DISPLAY_WIDTH: usize = 64;

/// Height of the framebuffer in pixels.
pub const DISPLAY_HEIGHT: usize = 32;

/// Bytes of framebuffer storage: three intensity bytes per pixel.
pub const DISPLAY_SIZE: usize = DISPLAY_HEIGHT * DISPLAY_WIDTH * 3;

/// Memory offset at which a program image is placed.
pub const PROGRAM_ROM_START: u16 = 0x200;

/// Everything that can go wrong inside the machine. Each fault is surfaced
/// synchronously from the operation that detected it; none is retried.
#[derive(Clone, Copy, Debug, PartialEq, Eq, Structural)]
pub enum Chip8Error {
    /// The fetched word matches no known instruction pattern.
    UnknownOpcode(u16),
    /// A call was made with all sixteen stack slots in use.
    StackOverflow,
    /// A return was executed with nothing on the stack.
    StackUnderflow,
    /// An instruction addressed memory at or past its 4096-byte end.
    AddressOutOfRange,
    /// A pixel index at or past the end of the framebuffer.
    BadPixelIndex,
    /// A pixel state other than 0 or 1.
    BadPixelState,
    /// A key index at or past the sixteen keypad slots, whether given by
    /// the host or found in a key-skip instruction's register.
    BadKeyIndex,
    /// A stored pixel triplet holds a byte that is neither 0 nor 255.
    PixelDesync,
    /// A program image longer than the memory left above its start offset.
    ProgramTooLarge,
}

/// How the program counter should move after an instruction: advance by
/// one word, stay exactly where the instruction put it, or hold still
/// until a key is pressed.
#[derive(Clone, Copy, Debug, PartialEq, Eq, Structural)]
pub enum Flow {
    /// Fall through to the next instruction word.
    Advance,
    /// The instruction placed the program counter on its exact target.
    Jump,
    /// The machine is blocked on a key press and will retry this
    /// instruction on the next cycle.
    WaitKey,
}

/// What one completed cycle reports back to the host.
#[derive(Clone, Copy, Debug, PartialEq, Eq, Structural)]
pub struct StepOutcome {
    /// The sound timer was running this cycle: an audible tone is requested.
    pub tone: bool,
    /// The cycle hit the key-wait instruction with no key pressed; the
    /// same instruction runs again on the next cycle.
    pub waiting: bool,
}

/// One CHIP-8 machine: 4096 bytes of memory, sixteen 8-bit registers, a
/// 12-bit address register, program counter, sixteen-slot call stack, two
/// timers, sixteen key states and a 64 x 32 monochrome framebuffer.
#[verifier::ext_equal]
pub struct Chip8 {
    /// The instruction word most recently fetched.
    pub opcode: u16,
    pub memory: [u8; 4096],
    /// General-purpose registers V0..VF; VF doubles as the carry,
    /// borrow, shift-out and sprite-collision flag.
    pub v_reg: [u8; 16],
    /// The address register I, an indirect-addressing base.
    pub i_addr: u16,
    /// Address of the next instruction to fetch.
    pub pc: u16,
    /// Three intensity bytes per pixel, row-major, all equal within a pixel.
    pub display: [u8; DISPLAY_SIZE],
    /// Saved return addresses.
    pub stack: [u16; 16],
    /// Number of stack slots in use.
    pub sp: usize,
    pub delay_timer: u8,
    pub sound_timer: u8,
    /// Key states, 1 for pressed, set by the host.
    pub keypad: [u8; 16],
}

/// The three bytes of pixel `p` agree and encode on (255) or off (0).
pub open spec fn pixel_ok(d: Seq<u8>, p: int) -> bool {
    &&& (d[3 * p] == 0 || d[3 * p] == 255)
    &&& d[3 * p + 1] == d[3 * p]
    &&& d[3 * p + 2] == d[3 * p]
}

/// Pixel `p` of the framebuffer is on.
pub open spec fn pixel_on(d: Seq<u8>, p: int) -> bool {
    d[3 * p] == 255
}

/// Every pixel of the framebuffer has a legal encoding.
pub open spec fn display_valid(d: Seq<u8>) -> bool {
    forall|p: int| 0 <= p < DISPLAY_WIDTH * DISPLAY_HEIGHT ==> #[trigger] pixel_ok(d, p)
}

impl Chip8 {
    /// The machine's internal invariant: the stack pointer stays within
    /// the sixteen slots and the framebuffer encoding is legal.
    pub open spec fn wf(self) -> bool {
        &&& self.sp <= 16
        &&& display_valid(self.display@)
    }

    /// A machine with every register, timer, key, memory byte and pixel
    /// zeroed; `initialize` must still run before a program executes.
    pub fn new() -> (c: Chip8)
        ensures
            c.opcode == 0,
            c.i_addr == 0,
            c.pc == 0,
            c.sp == 0,
            c.delay_timer == 0,
            c.sound_timer == 0,
            forall|i: int| 0 <= i < 4096 ==> c.memory@[i] == 0,
            forall|i: int| 0 <= i < 16 ==> c.v_reg@[i] == 0,
            forall|i: int| 0 <= i < DISPLAY_SIZE ==> c.display@[i] == 0,
            forall|i: int| 0 <= i < 16 ==> c.stack@[i] == 0,
            forall|i: int| 0 <= i < 16 ==> c.keypad@[i] == 0,
            c.wf(),
    {
        let c = Chip8 {
            opcode: 0,
            memory: [0; 4096],
            v_reg: [0; 16],
            i_addr: 0,
            pc: 0,
            display: [0; DISPLAY_SIZE],
            stack: [0; 16],
            sp: 0,
            delay_timer: 0,
            sound_timer: 0,
            keypad: [0; 16],
        };
        proof {
            assert forall|p: int| 0 <= p < DISPLAY_WIDTH * DISPLAY_HEIGHT implies #[trigger] pixel_ok(c.display@, p) by {
                assert(c.display@[3 * p] == 0);
                assert(c.display@[3 * p + 1] == 0);
                assert(c.display@[3 * p + 2] == 0);
            }
        }
        c
    }

    /// Reset to the defined start configuration: everything zeroed, the
    /// program counter on the program-start offset, and the glyph table
    /// copied into the bottom 80 bytes of memory.
    pub fn initialize(&mut self)
        ensures
            final(self).opcode == 0,
            final(self).i_addr == 0,
            final(self).pc == PROGRAM_ROM_START,
            final(self).sp == 0,
            final(self).delay_timer == 0,
            final(self).sound_timer == 0,
            fontset_loaded(final(self).memory@),
            forall|i: int| 80 <= i < 4096 ==> final(self).memory@[i] == 0,
            forall|i: int| 0 <= i < 16 ==> final(self).v_reg@[i] == 0,
            forall|i: int| 0 <= i < DISPLAY_SIZE ==> final(self).display@[i] == 0,
            forall|i: int| 0 <= i < 16 ==> final(self).stack@[i] == 0,
            forall|i: int| 0 <= i < 16 ==> final(self).keypad@[i] == 0,
            final(self).wf(),
    {
        self.opcode = 0;
        self.memory = [0; 4096];
        self.v_reg = [0; 16];
        self.i_addr = 0;
        self.pc = PROGRAM_ROM_START;
        self.display = [0; DISPLAY_SIZE];
        self.stack = [0; 16];
        self.sp = 0;
        self.delay_timer = 0;
        self.sound_timer = 0;
        self.keypad = [0; 16];

        let mut i: usize = 0;
        while i < 80
            invariant
                i <= 80,
                self.opcode == 0,
                self.i_addr == 0,
                self.pc == PROGRAM_ROM_START,
                self.sp == 0,
                self.delay_timer == 0,
                self.sound_timer == 0,
                forall|j: int| 0 <= j < i ==> self.memory@[j] == font_byte(j),
                forall|j: int| i <= j < 4096 ==> self.memory@[j] == 0,
                forall|j: int| 0 <= j < 16 ==> self.v_reg@[j] == 0,
                forall|j: int| 0 <= j < DISPLAY_SIZE ==> self.display@[j] == 0,
                forall|j: int| 0 <= j < 16 ==> self.stack@[j] == 0,
                forall|j: int| 0 <= j < 16 ==> self.keypad@[j] == 0,
            decreases 80 - i,
        {
            self.memory[i] = crate::font::glyph_row(i / 5, i % 5);
            i += 1;
        }
        proof {
            assert forall|p: int| 0 <= p < DISPLAY_WIDTH * DISPLAY_HEIGHT implies #[trigger] pixel_ok(self.display@, p) by {
                assert(self.display@[3 * p] == 0);
                assert(self.display@[3 * p + 1] == 0);
                assert(self.display@[3 * p + 2] == 0);
            }
        }
    }

    /// Copy a program image into memory starting at the program-start
    /// offset. An image longer than the memory left above that offset is
    /// rejected whole; nothing is written.
    pub fn load_rom(&mut self, rom: &[u8]) -> (r: Result<(), Chip8Error>)
        ensures
            rom@.len() > 4096 - PROGRAM_ROM_START ==> {
                &&& r == Err::<(), Chip8Error>(Chip8Error::ProgramTooLarge)
                &&& *final(self) == *old(self)
            },
            rom@.len() <= 4096 - PROGRAM_ROM_START ==> {
                &&& r == Ok::<(), Chip8Error>(())
                &&& *final(self) == (Chip8 { memory: final(self).memory, ..*old(self) })
                &&& forall|j: int|
                    0 <= j < rom@.len() ==> final(self).memory@[PROGRAM_ROM_START + j] == rom@[j]
                &&& forall|a: int|
                    0 <= a < 4096 && !(PROGRAM_ROM_START <= a < PROGRAM_ROM_START + rom@.len())
                        ==> final(self).memory@[a] == old(self).memory@[a]
            },
            old(self).wf() ==> final(self).wf(),
    {
        if rom.len() > 4096 - PROGRAM_ROM_START as usize {
            return Err(Chip8Error::ProgramTooLarge);
        }
        let base = PROGRAM_ROM_START as usize;
        let mut j: usize = 0;
        while j < rom.len()
            invariant
                rom@.len() <= 4096 - base,
                base == PROGRAM_ROM_START,
                j <= rom@.len(),
                *self == (Chip8 { memory: self.memory, ..*old(self) }),
                forall|k: int| 0 <= k < j ==> self.memory@[base + k] == rom@[k],
                forall|a: int|
                    0 <= a < 4096 && !(base <= a < base + j) ==> self.memory@[a] == old(
                        self,
                    ).memory@[a],
            decreases rom@.len() - j,
        {
            self.memory[base + j] = rom[j];
            j += 1;
        }
        Ok(())
    }

    /// Host-driven keypad update for key `index` in [0, 16).
    pub fn set_key(&mut self, index: usize, pressed: bool) -> (r: Result<(), Chip8Error>)
        ensures
            index >= 16 ==> {
                &&& r == Err::<(), Chip8Error>(Chip8Error::BadKeyIndex)
                &&& *final(self) == *old(self)
            },
            index < 16 ==> {
                &&& r == Ok::<(), Chip8Error>(())
                &&& *final(self) == (Chip8 { keypad: final(self).keypad, ..*old(self) })
                &&& final(self).keypad@ == old(self).keypad@.update(
                    index as int,
                    if pressed { 1u8 } else { 0u8 },
                )
            },
            old(self).wf() ==> final(self).wf(),
    {
        if index >= 16 {
            return Err(Chip8Error::BadKeyIndex);
        }
        self.keypad[index] = if pressed { 1 } else { 0 };
        Ok(())
    }

    /// The on/off state of the pixel at flattened `pixel_index`: 1 or 0 on
    /// success, an error for an index out of range or a triplet whose
    /// leading byte is neither encoding (a prior invariant violation,
    /// never caused by correct callers).
    pub fn get_pixel(&self, pixel_index: usize) -> (r: Result<u8, Chip8Error>)
        ensures
            pixel_index >= DISPLAY_WIDTH * DISPLAY_HEIGHT ==> r == Err::<u8, Chip8Error>(
                Chip8Error::BadPixelIndex,
            ),
            pixel_index < DISPLAY_WIDTH * DISPLAY_HEIGHT ==> r == (
            if self.display@[3 * pixel_index] == 255 {
                Ok::<u8, Chip8Error>(1u8)
            } else if self.display@[3 * pixel_index] == 0 {
                Ok::<u8, Chip8Error>(0u8)
            } else {
                Err::<u8, Chip8Error>(Chip8Error::PixelDesync)
            }),
    {
        if pixel_index >= DISPLAY_WIDTH * DISPLAY_HEIGHT {
            return Err(Chip8Error::BadPixelIndex);
        }
        let triplet_index = pixel_index * 3;
        // Only the first byte is read; a legal triplet repeats it.
        let red = self.display[triplet_index];
        match red {
            255 => Ok(1),
            0 => Ok(0),
            _ => Err(Chip8Error::PixelDesync),
        }
    }

    /// Write pixel `pixel_index` to an on/off `state` in {0, 1}, setting
    /// all three of its bytes; any other state is an invalid-input error.
    pub fn set_pixel(&mut self, pixel_index: usize, state: u8) -> (r: Result<(), Chip8Error>)
        ensures
            state > 1 ==> {
                &&& r == Err::<(), Chip8Error>(Chip8Error::BadPixelState)
                &&& *final(self) == *old(self)
            },
            state <= 1 && pixel_index >= DISPLAY_WIDTH * DISPLAY_HEIGHT ==> {
                &&& r == Err::<(), Chip8Error>(Chip8Error::BadPixelIndex)
                &&& *final(self) == *old(self)
            },
            state <= 1 && pixel_index < DISPLAY_WIDTH * DISPLAY_HEIGHT ==> {
                let v = if state == 1 { 255u8 } else { 0u8 };
                &&& r == Ok::<(), Chip8Error>(())
                &&& *final(self) == (Chip8 { display: final(self).display, ..*old(self) })
                &&& final(self).display@ == old(self).display@.update(3 * pixel_index, v).update(
                    3 * pixel_index + 1,
                    v,
                ).update(3 * pixel_index + 2, v)
            },
    {
        let pixel_value: u8 = match state {
            1 => 255,
            0 => 0,
            _ => {
                return Err(Chip8Error::BadPixelState);
            },
        };
        if pixel_index >= DISPLAY_WIDTH * DISPLAY_HEIGHT {
            return Err(Chip8Error::BadPixelIndex);
        }
        let triplet_index = pixel_index * 3;
        self.display[triplet_index] = pixel_value;
        self.display[triplet_index + 1] = pixel_value;
        self.display[triplet_index + 2] = pixel_value;
        Ok(())
    }

    /// Combine pixel `pixel_index` with `state` under XOR: drawing an on
    /// bit over an on pixel turns it off, which is what lets a sprite be
    /// erased by redrawing it.
    pub fn xor_pixel(&mut self, pixel_index: usize, state: u8) -> (r: Result<(), Chip8Error>)
        ensures
            state > 1 ==> {
                &&& r == Err::<(), Chip8Error>(Chip8Error::BadPixelState)
                &&& *final(self) == *old(self)
            },
            state <= 1 && pixel_index >= DISPLAY_WIDTH * DISPLAY_HEIGHT ==> {
                &&& r == Err::<(), Chip8Error>(Chip8Error::BadPixelIndex)
                &&& *final(self) == *old(self)
            },
            state <= 1 && pixel_index < DISPLAY_WIDTH * DISPLAY_HEIGHT
                && old(self).display@[3 * pixel_index] != 0
                && old(self).display@[3 * pixel_index] != 255 ==> {
                &&& r == Err::<(), Chip8Error>(Chip8Error::PixelDesync)
                &&& *final(self) == *old(self)
            },
            state <= 1 && pixel_index < DISPLAY_WIDTH * DISPLAY_HEIGHT
                && (old(self).display@[3 * pixel_index] == 0
                || old(self).display@[3 * pixel_index] == 255) ==> {
                let was_on = pixel_on(old(self).display@, pixel_index as int);
                let v = if was_on != (state == 1) { 255u8 } else { 0u8 };
                &&& r == Ok::<(), Chip8Error>(())
                &&& *final(self) == (Chip8 { display: final(self).display, ..*old(self) })
                &&& final(self).display@ == old(self).display@.update(3 * pixel_index, v).update(
                    3 * pixel_index + 1,
                    v,
                ).update(3 * pixel_index + 2, v)
            },
    {
        if state > 1 {
            return Err(Chip8Error::BadPixelState);
        }
        let current = match self.get_pixel(pixel_index) {
            Ok(c) => c,
            Err(e) => {
                return Err(e);
            },
        };
        // XOR by cases: matching states turn the pixel off, differing
        // states turn it on.
        if current == state {
            self.set_pixel(pixel_index, 0)
        } else {
            self.set_pixel(pixel_index, 1)
        }
    }
}

} // verus!

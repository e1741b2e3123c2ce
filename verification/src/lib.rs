//! A verified CHIP-8 virtual machine: fixed memory, sixteen 8-bit registers,
//! a call stack, two timers, a 16-key keypad and a monochrome framebuffer,
//! driven one fetch-decode-execute cycle at a time.

pub mod execute;
pub mod font;
pub mod laws;
pub mod machine;
pub mod opcode;
pub mod semantics;

pub use machine::{Chip8, Chip8Error, Flow, StepOutcome};
pub use machine::{DISPLAY_HEIGHT, DISPLAY_SIZE, DISPLAY_WIDTH, PROGRAM_ROM_START};
pub use opcode::{op_kk, op_n, op_nnn, op_x, op_y};

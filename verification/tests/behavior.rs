use chip8::{Chip8, Chip8Error, DISPLAY_SIZE, PROGRAM_ROM_START};

fn fresh() -> Chip8 {
    let mut c = Chip8::new();
    c.initialize();
    c
}

// The canonical glyph patterns, five bytes per hexadecimal digit.
const GLYPHS: [[u8; 5]; 16] = [
    [0xF0, 0x90, 0x90, 0x90, 0xF0],
    [0x20, 0x60, 0x20, 0x20, 0x70],
    [0xF0, 0x10, 0xF0, 0x80, 0xF0],
    [0xF0, 0x10, 0xF0, 0x10, 0xF0],
    [0x90, 0x90, 0xF0, 0x10, 0x10],
    [0xF0, 0x80, 0xF0, 0x10, 0xF0],
    [0xF0, 0x80, 0xF0, 0x90, 0xF0],
    [0xF0, 0x10, 0x20, 0x40, 0x40],
    [0xF0, 0x90, 0xF0, 0x90, 0xF0],
    [0xF0, 0x90, 0xF0, 0x10, 0xF0],
    [0xF0, 0x90, 0xF0, 0x90, 0x90],
    [0xE0, 0x90, 0xE0, 0x90, 0xE0],
    [0xF0, 0x80, 0x80, 0x80, 0xF0],
    [0xE0, 0x90, 0x90, 0x90, 0xE0],
    [0xF0, 0x80, 0xF0, 0x80, 0xF0],
    [0xF0, 0x80, 0xF0, 0x80, 0x80],
];

#[test]
fn reset_state_is_zeroed() {
    let mut c = Chip8::new();
    c.memory[0x300] = 7;
    c.v_reg[3] = 9;
    c.delay_timer = 4;
    c.sound_timer = 5;
    c.sp = 3;
    c.stack[2] = 0x123;
    c.keypad[1] = 1;
    c.i_addr = 0x42;
    c.set_pixel(10, 1).unwrap();
    c.initialize();

    assert_eq!(c.pc, PROGRAM_ROM_START);
    assert_eq!(c.i_addr, 0);
    assert_eq!(c.sp, 0);
    assert_eq!(c.delay_timer, 0);
    assert_eq!(c.sound_timer, 0);
    for i in 0..16 {
        assert_eq!(c.v_reg[i], 0);
        assert_eq!(c.stack[i], 0);
        assert_eq!(c.keypad[i], 0);
    }
    for d in 0..16 {
        for k in 0..5 {
            assert_eq!(c.memory[5 * d + k], GLYPHS[d][k]);
        }
    }
    for a in 80..4096 {
        assert_eq!(c.memory[a], 0);
    }
    for b in 0..DISPLAY_SIZE {
        assert_eq!(c.display[b], 0);
    }
}

#[test]
fn add_sets_carry_exactly_when_sum_overflows() {
    let mut c = fresh();
    c.v_reg[0] = 200;
    c.v_reg[1] = 100;
    c.opcode = 0x8014;
    c.decode_opcode().unwrap();
    assert_eq!(c.v_reg[0], 44); // (200 + 100) mod 256
    assert_eq!(c.v_reg[0xF], 1);

    let mut c = fresh();
    c.v_reg[0] = 200;
    c.v_reg[1] = 55;
    c.opcode = 0x8014;
    c.decode_opcode().unwrap();
    assert_eq!(c.v_reg[0], 255);
    assert_eq!(c.v_reg[0xF], 0);
}

#[test]
fn sub_zeroes_result_on_borrow() {
    let mut c = fresh();
    c.v_reg[2] = 9;
    c.v_reg[3] = 4;
    c.opcode = 0x8235;
    c.decode_opcode().unwrap();
    assert_eq!(c.v_reg[2], 5);
    assert_eq!(c.v_reg[0xF], 1);

    let mut c = fresh();
    c.v_reg[2] = 4;
    c.v_reg[3] = 9;
    c.opcode = 0x8235;
    c.decode_opcode().unwrap();
    assert_eq!(c.v_reg[2], 0);
    assert_eq!(c.v_reg[0xF], 0);
}

#[test]
fn subn_mirrors_sub() {
    let mut c = fresh();
    c.v_reg[2] = 4;
    c.v_reg[3] = 9;
    c.opcode = 0x8237;
    c.decode_opcode().unwrap();
    assert_eq!(c.v_reg[2], 5);
    assert_eq!(c.v_reg[0xF], 1);

    let mut c = fresh();
    c.v_reg[2] = 9;
    c.v_reg[3] = 4;
    c.opcode = 0x8237;
    c.decode_opcode().unwrap();
    assert_eq!(c.v_reg[2], 0);
    assert_eq!(c.v_reg[0xF], 0);
}

#[test]
fn bitwise_and_assignment_ops() {
    let mut c = fresh();
    c.v_reg[4] = 0b1100;
    c.v_reg[5] = 0b1010;
    c.opcode = 0x8451;
    c.decode_opcode().unwrap();
    assert_eq!(c.v_reg[4], 0b1110);

    c.v_reg[4] = 0b1100;
    c.opcode = 0x8452;
    c.decode_opcode().unwrap();
    assert_eq!(c.v_reg[4], 0b1000);

    c.v_reg[4] = 0b1100;
    c.opcode = 0x8453;
    c.decode_opcode().unwrap();
    assert_eq!(c.v_reg[4], 0b0110);

    c.opcode = 0x8450;
    c.decode_opcode().unwrap();
    assert_eq!(c.v_reg[4], 0b1010);

    c.opcode = 0x6477;
    c.decode_opcode().unwrap();
    assert_eq!(c.v_reg[4], 0x77);

    // 7xkk wraps at 8 bits without touching the flag
    c.v_reg[6] = 0xFF;
    c.v_reg[0xF] = 9;
    c.opcode = 0x7603;
    c.decode_opcode().unwrap();
    assert_eq!(c.v_reg[6], 2);
    assert_eq!(c.v_reg[0xF], 9);
}

#[test]
fn shifts_report_the_shifted_out_bit() {
    let mut c = fresh();
    c.v_reg[1] = 0x03;
    c.opcode = 0x8106;
    c.decode_opcode().unwrap();
    assert_eq!(c.v_reg[1], 0x01);
    assert_eq!(c.v_reg[0xF], 1);

    // The left shift keeps the high bit in place in VF (0x80, not 1),
    // as the machine this models does.
    let mut c = fresh();
    c.v_reg[1] = 0x81;
    c.opcode = 0x810E;
    c.decode_opcode().unwrap();
    assert_eq!(c.v_reg[1], 0x02);
    assert_eq!(c.v_reg[0xF], 0x80);
}

fn run_one(c: &mut Chip8, b0: u8, b1: u8) -> Result<chip8::StepOutcome, Chip8Error> {
    let pc = c.pc as usize;
    c.memory[pc] = b0;
    c.memory[pc + 1] = b1;
    c.emulate_cycle()
}

#[test]
fn skip_opcodes_advance_by_four_or_two() {
    // 3xkk: equal -> skip
    let mut c = fresh();
    c.v_reg[1] = 0x42;
    run_one(&mut c, 0x31, 0x42).unwrap();
    assert_eq!(c.pc, 0x204);
    let mut c = fresh();
    c.v_reg[1] = 0x41;
    run_one(&mut c, 0x31, 0x42).unwrap();
    assert_eq!(c.pc, 0x202);

    // 4xkk: unequal -> skip
    let mut c = fresh();
    c.v_reg[1] = 0x41;
    run_one(&mut c, 0x41, 0x42).unwrap();
    assert_eq!(c.pc, 0x204);
    let mut c = fresh();
    c.v_reg[1] = 0x42;
    run_one(&mut c, 0x41, 0x42).unwrap();
    assert_eq!(c.pc, 0x202);

    // 5xy0: registers equal -> skip
    let mut c = fresh();
    c.v_reg[1] = 7;
    c.v_reg[2] = 7;
    run_one(&mut c, 0x51, 0x20).unwrap();
    assert_eq!(c.pc, 0x204);
    let mut c = fresh();
    c.v_reg[1] = 7;
    c.v_reg[2] = 8;
    run_one(&mut c, 0x51, 0x20).unwrap();
    assert_eq!(c.pc, 0x202);

    // 9xy0: registers unequal -> skip
    let mut c = fresh();
    c.v_reg[1] = 7;
    c.v_reg[2] = 8;
    run_one(&mut c, 0x91, 0x20).unwrap();
    assert_eq!(c.pc, 0x204);
    let mut c = fresh();
    c.v_reg[1] = 7;
    c.v_reg[2] = 7;
    run_one(&mut c, 0x91, 0x20).unwrap();
    assert_eq!(c.pc, 0x202);

    // Ex9E: key down -> skip
    let mut c = fresh();
    c.v_reg[3] = 0xB;
    c.set_key(0xB, true).unwrap();
    run_one(&mut c, 0xE3, 0x9E).unwrap();
    assert_eq!(c.pc, 0x204);
    let mut c = fresh();
    c.v_reg[3] = 0xB;
    run_one(&mut c, 0xE3, 0x9E).unwrap();
    assert_eq!(c.pc, 0x202);

    // ExA1: key up -> skip
    let mut c = fresh();
    c.v_reg[3] = 0xB;
    run_one(&mut c, 0xE3, 0xA1).unwrap();
    assert_eq!(c.pc, 0x204);
    let mut c = fresh();
    c.v_reg[3] = 0xB;
    c.set_key(0xB, true).unwrap();
    run_one(&mut c, 0xE3, 0xA1).unwrap();
    assert_eq!(c.pc, 0x202);
}

#[test]
fn overlapping_draws_collide_and_toggle_off() {
    let mut c = fresh();
    c.v_reg[0] = 5;
    c.v_reg[1] = 3;
    c.i_addr = 0x700;
    c.memory[0x700] = 0x80; // a single pixel sprite

    c.opcode = 0xD011;
    c.decode_opcode().unwrap();
    assert_eq!(c.get_pixel(3 * 64 + 5).unwrap(), 1);
    assert_eq!(c.v_reg[0xF], 0);

    c.decode_opcode().unwrap();
    assert_eq!(c.get_pixel(3 * 64 + 5).unwrap(), 0, "second draw toggles the pixel off");
    assert_eq!(c.v_reg[0xF], 1, "second draw reports the collision");
}

#[test]
fn draw_clips_below_the_bottom_edge() {
    let mut c = fresh();
    c.v_reg[0] = 0;
    c.v_reg[1] = 31; // last row: the second sprite row falls off-screen
    c.i_addr = 0x700;
    c.memory[0x700] = 0x80;
    c.memory[0x701] = 0x80;

    c.opcode = 0xD012;
    c.decode_opcode().unwrap();
    assert_eq!(c.get_pixel(31 * 64).unwrap(), 1);
    assert_eq!(c.v_reg[0xF], 0);
    // nothing wrapped to the top
    assert_eq!(c.get_pixel(0).unwrap(), 0);
}

#[test]
fn glyph_addresses_cover_every_digit() {
    for d in 0..16u8 {
        let mut c = fresh();
        c.v_reg[7] = d;
        c.opcode = 0xF729;
        c.decode_opcode().unwrap();
        assert_eq!(c.i_addr, 5 * d as u16);
        for k in 0..5 {
            assert_eq!(c.memory[c.i_addr as usize + k], GLYPHS[d as usize][k]);
        }
    }
}

#[test]
fn bcd_of_zero_is_three_zero_digits() {
    let mut c = fresh();
    c.i_addr = 0x500;
    c.memory[0x500] = 9;
    c.memory[0x501] = 9;
    c.memory[0x502] = 9;
    c.v_reg[2] = 0;
    c.opcode = 0xF233;
    c.decode_opcode().unwrap();
    assert_eq!(c.memory[0x500], 0);
    assert_eq!(c.memory[0x501], 0);
    assert_eq!(c.memory[0x502], 0);
}

#[test]
fn store_then_load_restores_registers() {
    for x in 0..16u16 {
        let mut c = fresh();
        for i in 0..16 {
            c.v_reg[i] = (7 * i + 3) as u8;
        }
        c.i_addr = 0x600;
        c.opcode = 0xF055 | (x << 8);
        c.decode_opcode().unwrap();

        let saved = c.v_reg;
        c.v_reg = [0; 16];
        c.opcode = 0xF065 | (x << 8);
        c.decode_opcode().unwrap();

        for i in 0..=x as usize {
            assert_eq!(c.v_reg[i], saved[i]);
        }
        for i in (x as usize + 1)..16 {
            assert_eq!(c.v_reg[i], 0, "registers past Vx stay untouched");
        }
    }
}

#[test]
fn unknown_opcode_faults_without_mutation() {
    let mut c = fresh();
    c.v_reg[5] = 9;
    c.delay_timer = 3;
    let r = run_one(&mut c, 0x01, 0x23);
    assert_eq!(r, Err(Chip8Error::UnknownOpcode(0x0123)));
    // nothing mutated beyond the fetch into the opcode register
    assert_eq!(c.opcode, 0x0123);
    assert_eq!(c.pc, 0x200);
    assert_eq!(c.v_reg[5], 9);
    assert_eq!(c.delay_timer, 3, "timers do not tick on a fault");

    let mut c = fresh();
    let r = run_one(&mut c, 0x80, 0x18);
    assert_eq!(r, Err(Chip8Error::UnknownOpcode(0x8018)));

    let mut c = fresh();
    let r = run_one(&mut c, 0x51, 0x21);
    assert_eq!(r, Err(Chip8Error::UnknownOpcode(0x5121)));
}

#[test]
fn stack_faults_are_reported() {
    let mut c = fresh();
    c.opcode = 0x00EE;
    assert_eq!(c.decode_opcode(), Err(Chip8Error::StackUnderflow));

    let mut c = fresh();
    c.sp = 16;
    c.opcode = 0x2300;
    assert_eq!(c.decode_opcode(), Err(Chip8Error::StackOverflow));
    assert_eq!(c.sp, 16);
    assert_eq!(c.pc, 0x200);
}

#[test]
fn address_faults_are_reported() {
    let mut c = fresh();
    c.i_addr = 4094;
    c.v_reg[2] = 235;
    c.opcode = 0xF233;
    assert_eq!(c.decode_opcode(), Err(Chip8Error::AddressOutOfRange));
    assert_eq!(c.memory[4094], 0, "a faulting store writes nothing");

    let mut c = fresh();
    c.i_addr = 4090;
    c.opcode = 0xF755; // V0..V7 do not fit above 4090
    assert_eq!(c.decode_opcode(), Err(Chip8Error::AddressOutOfRange));

    let mut c = fresh();
    c.i_addr = 4090;
    c.opcode = 0xF765;
    assert_eq!(c.decode_opcode(), Err(Chip8Error::AddressOutOfRange));

    let mut c = fresh();
    c.i_addr = 4089;
    c.opcode = 0xD018; // eight sprite rows from 4089 run past the end
    assert_eq!(c.decode_opcode(), Err(Chip8Error::AddressOutOfRange));

    let mut c = fresh();
    c.pc = 4095;
    assert_eq!(c.emulate_cycle(), Err(Chip8Error::AddressOutOfRange));
    assert_eq!(c.pc, 4095);
}

#[test]
fn pixel_accessors_validate_their_inputs() {
    let mut c = fresh();
    assert_eq!(c.get_pixel(64 * 32), Err(Chip8Error::BadPixelIndex));
    assert_eq!(c.set_pixel(64 * 32, 1), Err(Chip8Error::BadPixelIndex));
    assert_eq!(c.set_pixel(0, 2), Err(Chip8Error::BadPixelState));
    assert_eq!(c.xor_pixel(0, 2), Err(Chip8Error::BadPixelState));

    c.set_pixel(5, 1).unwrap();
    assert_eq!(c.get_pixel(5).unwrap(), 1);
    c.xor_pixel(5, 1).unwrap();
    assert_eq!(c.get_pixel(5).unwrap(), 0);
    c.xor_pixel(5, 0).unwrap();
    assert_eq!(c.get_pixel(5).unwrap(), 0);

    // a corrupted triplet is a representation violation, not a panic
    c.display[0] = 7;
    assert_eq!(c.get_pixel(0), Err(Chip8Error::PixelDesync));
    assert_eq!(c.xor_pixel(0, 1), Err(Chip8Error::PixelDesync));
}

#[test]
fn key_faults_are_reported() {
    let mut c = fresh();
    assert_eq!(c.set_key(16, true), Err(Chip8Error::BadKeyIndex));
    c.set_key(4, true).unwrap();
    assert_eq!(c.keypad[4], 1);
    c.set_key(4, false).unwrap();
    assert_eq!(c.keypad[4], 0);

    // a skip keyed by a register holding no key number is a fault
    let mut c = fresh();
    c.v_reg[3] = 200;
    c.opcode = 0xE39E;
    assert_eq!(c.decode_opcode(), Err(Chip8Error::BadKeyIndex));
}

#[test]
fn oversized_program_image_is_rejected_whole() {
    let mut c = fresh();
    let rom = vec![1u8; 4096 - 0x200 + 1];
    assert_eq!(c.load_rom(&rom), Err(Chip8Error::ProgramTooLarge));
    assert_eq!(c.memory[0x200], 0);

    let rom = vec![2u8; 4096 - 0x200];
    c.load_rom(&rom).unwrap();
    assert_eq!(c.memory[0x200], 2);
    assert_eq!(c.memory[4095], 2);
    assert_eq!(c.memory[0x1FF], 0, "the glyph region and low memory stay untouched");
}

#[test]
fn random_byte_is_masked_into_the_register() {
    let mut c = fresh();
    c.opcode = 0xC3F0;
    c.opcode_rnd_with(0xAB);
    assert_eq!(c.v_reg[3], 0xA0);

    // through the dispatcher the mask still binds whatever byte came up
    let mut c = fresh();
    c.opcode = 0xC30F;
    c.decode_opcode().unwrap();
    assert_eq!(c.v_reg[3] & 0xF0, 0);
}

#[test]
fn waitkey_blocks_until_a_key_is_pressed() {
    let mut c = fresh();
    c.delay_timer = 5;
    let out = run_one(&mut c, 0xF3, 0x0A).unwrap();
    assert!(out.waiting);
    assert_eq!(c.pc, 0x200, "the instruction is retried on the next cycle");
    assert_eq!(c.delay_timer, 4, "timers tick while blocked");

    c.set_key(0x9, true).unwrap();
    let out = c.emulate_cycle().unwrap();
    assert!(!out.waiting);
    assert_eq!(c.v_reg[3], 0x9);
    assert_eq!(c.pc, 0x202);
}

#[test]
fn set_address_register_skips_a_word() {
    // the Annn handler advances the counter itself, and the driver
    // advances again: a quirk of the machine this models, kept as is
    let mut c = fresh();
    run_one(&mut c, 0xA7, 0x55).unwrap();
    assert_eq!(c.i_addr, 0x755);
    assert_eq!(c.pc, 0x204);
}

#[test]
fn jumps_land_exactly_on_their_target() {
    let mut c = fresh();
    run_one(&mut c, 0x16, 0x66).unwrap();
    assert_eq!(c.pc, 0x666);

    let mut c = fresh();
    c.v_reg[0] = 0x10;
    run_one(&mut c, 0xB3, 0x00).unwrap();
    assert_eq!(c.pc, 0x310);
}

#[test]
fn call_and_return_resume_after_the_call_site() {
    let mut c = fresh();
    run_one(&mut c, 0x23, 0x00).unwrap(); // call 0x300 from 0x200
    assert_eq!(c.pc, 0x300);
    assert_eq!(c.sp, 1);
    assert_eq!(c.stack[0], 0x200);

    run_one(&mut c, 0x00, 0xEE).unwrap(); // return
    assert_eq!(c.sp, 0);
    assert_eq!(c.pc, 0x202, "execution resumes one word past the call");
}

#[test]
fn timers_tick_and_signal_the_tone() {
    let mut c = fresh();
    c.delay_timer = 2;
    c.sound_timer = 1;
    let out = run_one(&mut c, 0x60, 0x01).unwrap(); // any fall-through opcode
    assert_eq!(c.delay_timer, 1);
    assert_eq!(c.sound_timer, 0);
    assert!(out.tone);

    let out = run_one(&mut c, 0x60, 0x01).unwrap();
    assert_eq!(c.delay_timer, 0);
    assert_eq!(c.sound_timer, 0);
    assert!(!out.tone);

    // Fx07 and Fx15/Fx18 move timer values through registers
    let mut c = fresh();
    c.v_reg[4] = 30;
    c.opcode = 0xF415;
    c.decode_opcode().unwrap();
    assert_eq!(c.delay_timer, 30);
    c.opcode = 0xF518;
    c.v_reg[5] = 12;
    c.decode_opcode().unwrap();
    assert_eq!(c.sound_timer, 12);
    c.opcode = 0xF607;
    c.decode_opcode().unwrap();
    assert_eq!(c.v_reg[6], 30);
}

#[test]
fn add_to_address_register_is_unchecked() {
    let mut c = fresh();
    c.i_addr = 4000;
    c.v_reg[2] = 200;
    c.opcode = 0xF21E;
    c.decode_opcode().unwrap();
    assert_eq!(c.i_addr, 4200, "the address register may leave the 12-bit space");
}

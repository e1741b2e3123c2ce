use chip8::{Chip8, DISPLAY_SIZE, DISPLAY_WIDTH};

#[test]
fn initialize() {
    let mut c = Chip8::new();

    c.initialize();

    assert_eq!(c.pc, 0x200);

    // make sure fontset was loaded
    assert_eq!(c.memory[0], 0xF0);
    assert_eq!(c.memory[1], 0x90);
    assert_eq!(c.memory[65], 0xE0);
    assert_eq!(c.memory[79], 0x80);
}

#[test]
fn fetch_opcode() {
    let mut c = Chip8::new();

    c.initialize();
    c.memory[c.pc as usize] = 0xD6;
    c.memory[c.pc as usize + 1] = 0x3E;
    c.fetch_opcode().unwrap();

    assert_eq!(c.opcode, 0xD63E)
}

#[test]
fn load_rom() {
    let mut c = Chip8::new();

    c.initialize();
    // An image with the first words and a middle word of a pong program.
    let mut rom = vec![0u8; 0xE2];
    rom[0] = 0x6A;
    rom[1] = 0x02;
    rom[0xE0] = 0xD4;
    rom[0xE1] = 0x55;
    c.load_rom(&rom).unwrap();

    // test first two bytes
    assert_eq!(c.memory[0x200], 0x6A);
    assert_eq!(c.memory[0x201], 0x02);

    // test some bytes in the middle
    assert_eq!(c.memory[0x200 + 0xE0], 0xD4);
    assert_eq!(c.memory[0x201 + 0xE0], 0x55);
}

// opcode tests

#[test]
fn opcode_cls() {
    let mut c = Chip8::new();
    c.initialize();

    c.display[0] = 1;
    c.display[DISPLAY_SIZE - 1] = 1;
    c.opcode = 0x00E0;
    c.decode_opcode().unwrap();

    assert_eq!(c.display[0], 0);
    assert_eq!(c.display[DISPLAY_SIZE - 1], 0);
}

#[test]
fn opcode_ret() {
    let mut c = Chip8::new();
    c.initialize();

    c.stack[0] = 21;
    c.sp = 1;
    c.opcode = 0x00EE;
    c.decode_opcode().unwrap();

    assert_eq!(c.pc, c.stack[0]);
    assert_eq!(c.sp, 0);
}

#[test]
fn opcode_jp() {
    let mut c = Chip8::new();
    c.initialize();

    c.opcode = 0x1666;
    c.decode_opcode().unwrap();

    assert_eq!(c.pc, 0x666);
}

#[test]
fn opcode_call() {
    let mut c = Chip8::new();
    c.initialize();

    c.opcode = 0x2666;
    c.pc = 0x51;
    c.sp = 1;
    c.stack[0] = 0x21;
    c.decode_opcode().unwrap();

    assert_eq!(c.sp, 2);
    assert_eq!(c.stack[1], 0x51);
    assert_eq!(c.pc, 0x666);
}

#[test]
fn opcode_se_byte() {}

#[test]
fn opcode_sne_byte() {}

#[test]
fn opcode_se_vx() {}

#[test]
fn opcode_ld_byte() {}

#[test]
fn opcode_add_byte() {}

#[test]
fn opcode_ld_vy() {}

#[test]
fn opcode_or() {}

#[test]
fn opcode_and() {}

#[test]
fn opcode_xor() {}

#[test]
fn opcode_add() {}

#[test]
fn opcode_sub() {}

#[test]
fn opcode_shr() {}

#[test]
fn opcode_subn() {}

#[test]
fn opcode_shl() {}

#[test]
fn opcode_sne() {}

#[test]
fn opcode_ld() {}

#[test]
fn opcode_jp_v0() {}

#[test]
fn opcode_rnd() {}

#[test]
fn opcode_drw() {
    let mut c = Chip8::new();
    c.initialize();

    // coordinates: (63, 0) i.e. upper right corner of screen
    c.v_reg[0] = 63;
    c.v_reg[1] = 0;

    // Put a 2x2 cube at 0x755 in memory
    c.i_addr = 0x755;
    c.memory[c.i_addr as usize] = 0xC0;
    c.memory[c.i_addr as usize + 1] = 0xC0;

    // Turn the last pixel on row 0 on so we can test that it's turned off
    c.set_pixel(DISPLAY_WIDTH - 1, 1).unwrap();

    // Draw 2-byte sprite at V0 and V1 (set above)
    c.opcode = 0xD012;

    c.decode_opcode().unwrap();

    assert_eq!(c.get_pixel(DISPLAY_WIDTH - 1).unwrap(), 0, "pixel wasn't zeroed");
    assert_eq!(c.get_pixel(DISPLAY_WIDTH * 2 - 1).unwrap(), 1);
    assert_eq!(c.v_reg[0xF], 1, "carry bit should be set by collision");
    // wrapping
    assert_eq!(c.get_pixel(0).unwrap(), 1, "sprite should wrap");
    assert_eq!(c.get_pixel(DISPLAY_WIDTH).unwrap(), 1, "sprite should wrap ");
}

#[test]
fn opcode_skp() {
    let mut c = Chip8::new();
    c.initialize();

    c.v_reg[0xA] = 0xA; // VA names key A
    c.keypad[0xA] = 1; // A is pressed
    c.opcode = 0xEA9E; // check if a is pressed

    let old_pc = c.pc;

    c.decode_opcode().unwrap();

    assert_eq!(c.pc, old_pc + 2);
}

#[test]
fn opcode_sknp() {
    let mut c = Chip8::new();
    c.initialize();

    c.v_reg[0xA] = 0xA; // VA names key A
    c.keypad[0xA] = 0; // A is not pressed
    c.opcode = 0xEAA1; // check if a is NOT pressed

    let old_pc = c.pc;

    c.decode_opcode().unwrap();

    assert_eq!(c.pc, old_pc + 2);
}

#[test]
fn opcode_ld_set_dt() {}

#[test]
fn opcode_ld_k() {}

#[test]
fn opcode_ld_get_dt() {}

#[test]
fn opcode_set_st() {}

#[test]
fn opcode_add_i() {}

#[test]
fn opcode_set_sprite() {
    let mut c = Chip8::new();
    c.initialize();

    c.v_reg[0xA] = 0xA;
    c.opcode = 0xFA29; // A = get the sprite for 0xA
    c.decode_opcode().unwrap();

    // Check to see that memory[I] holds the sprite for 0xA
    assert_eq!(c.memory[c.i_addr as usize], 0xF0);
    assert_eq!(c.memory[c.i_addr as usize + 1], 0x90);
    assert_eq!(c.memory[c.i_addr as usize + 2], 0xF0);
    assert_eq!(c.memory[c.i_addr as usize + 3], 0x90);
    assert_eq!(c.memory[c.i_addr as usize + 4], 0x90);
}

#[test]
fn opcode_bcd_vx() {
    let mut c = Chip8::new();
    c.initialize();

    c.v_reg[0x2] = 235;

    c.opcode = 0xF233; // Store BCD of V[2]
    c.decode_opcode().unwrap();

    assert_eq!(c.memory[c.i_addr as usize], 2);
    assert_eq!(c.memory[c.i_addr as usize + 1], 3);
    assert_eq!(c.memory[c.i_addr as usize + 2], 5);
}

#[test]
fn opcode_store_vx() {
    let mut c = Chip8::new();
    c.initialize();

    c.v_reg[0x0] = 0xAA;
    c.v_reg[0x1] = 0xAB;
    c.v_reg[0x2] = 0xBB;

    c.opcode = 0xF255; // Store V0-V2 in memory at I
    c.i_addr = 0x932;
    c.decode_opcode().unwrap();

    assert_eq!(c.memory[c.i_addr as usize], 0xAA);
    assert_eq!(c.memory[c.i_addr as usize + 1], 0xAB);
    assert_eq!(c.memory[c.i_addr as usize + 2], 0xBB);
}

#[test]
fn opcode_read_vx() {
    let mut c = Chip8::new();
    c.initialize();

    c.i_addr = 0x944;
    c.memory[c.i_addr as usize] = 0xCC;
    c.memory[c.i_addr as usize + 1] = 0xCD;
    c.memory[c.i_addr as usize + 2] = 0xDD;

    c.opcode = 0xF265; // Read V0-V2 from memory to V2
    c.decode_opcode().unwrap();

    assert_eq!(c.v_reg[0x0], 0xCC);
    assert_eq!(c.v_reg[0x1], 0xCD);
    assert_eq!(c.v_reg[0x2], 0xDD);
}

use rs_chip8::cpu::{CpuError, ProgramCounter, CPU};
use rs_chip8::opcode::OpCode;

const NO_KEYS: [bool; 16] = [false; 16];

#[test]
fn cycle_clear_screen_reports_change() {
    // Opcode bytes 0x00 0xE0 executed as one cycle clear a framebuffer that
    // held arbitrary values and report it as changed.
    let mut cpu = CPU::new();
    cpu.vram[0][0] = 1;
    cpu.vram[17][33] = 1;
    cpu.vram[31][63] = 1;
    cpu.load(&[0x00, 0xE0]).unwrap();
    let out = cpu.cycle(NO_KEYS).unwrap();
    assert!(out.vram_changed);
    for row in out.vram.iter() {
        for &px in row.iter() {
            assert_eq!(px, 0);
        }
    }
    assert_eq!(cpu.pc, 0x202);
}

#[test]
fn cycle_add_without_carry() {
    // Register 1 = 120, register 2 = 103: adding register 2 into register 1
    // gives 223 and no carry.
    let mut cpu = CPU::new();
    cpu.registers[1] = 120;
    cpu.registers[2] = 103;
    cpu.load(&[0x81, 0x24]).unwrap();
    cpu.cycle(NO_KEYS).unwrap();
    assert_eq!(cpu.registers[1], 223);
    assert_eq!(cpu.registers[15], 0);
}

#[test]
fn cycle_add_with_carry() {
    // Register 1 = 200, register 2 = 200: the same opcode gives 144 and a
    // carry.
    let mut cpu = CPU::new();
    cpu.registers[1] = 200;
    cpu.registers[2] = 200;
    cpu.load(&[0x81, 0x24]).unwrap();
    cpu.cycle(NO_KEYS).unwrap();
    assert_eq!(cpu.registers[1], 144);
    assert_eq!(cpu.registers[15], 1);
}

#[test]
fn cycle_jump_sets_pc_exactly() {
    // A jump with encoded address 0x0456 sets the program counter to
    // exactly 0x0456.
    let mut cpu = CPU::new();
    cpu.load(&[0x14, 0x56]).unwrap();
    cpu.cycle(NO_KEYS).unwrap();
    assert_eq!(cpu.pc, 0x0456);
}

#[test]
fn call_then_return_restores_pc() {
    // Call the subroutine at 0x204, whose first instruction returns: the
    // program counter comes back to the instruction after the call.
    let mut cpu = CPU::new();
    cpu.load(&[0x22, 0x04, 0x00, 0x00, 0x00, 0xEE]).unwrap();
    cpu.cycle(NO_KEYS).unwrap();
    assert_eq!(cpu.pc, 0x204);
    assert_eq!(cpu.sp, 1);
    assert_eq!(cpu.stack[0], 0x202);
    cpu.cycle(NO_KEYS).unwrap();
    assert_eq!(cpu.pc, 0x202);
    assert_eq!(cpu.sp, 0);
}

#[test]
fn draw_single_row_sprite() {
    // An 8x1 sprite byte 0xFF at (1, 1) sets row 1, columns 1 through 8,
    // and leaves row 0 and column 0 untouched.
    let mut cpu = CPU::new();
    cpu.registers[1] = 1;
    cpu.registers[2] = 1;
    cpu.index = 0x300;
    cpu.ram[0x300] = 0xFF;
    let opcode = OpCode::new(0xD1, 0x20);
    let pc_effect = cpu.execute_op_dxyn(&opcode);
    assert_eq!(pc_effect, ProgramCounter::Next);
    for c in 1..=8 {
        assert_eq!(cpu.vram[1][c], 1);
    }
    for c in 0..64 {
        assert_eq!(cpu.vram[0][c], 0);
    }
    for r in 0..32 {
        assert_eq!(cpu.vram[r][0], 0);
    }
    assert_eq!(cpu.vram[1][9], 0);
    assert_eq!(cpu.registers[15], 0);
    assert!(cpu.vram_changed);
}

#[test]
fn draw_twice_restores_framebuffer() {
    // XOR is self-inverse: the same sprite drawn twice at the same place
    // restores the previous contents; the first draw on a blank area
    // reports no collision, the second one collides with what the first
    // drew.
    let mut cpu = CPU::new();
    cpu.vram[5][12] = 1;
    cpu.registers[1] = 3;
    cpu.registers[2] = 2;
    cpu.index = 0x300;
    cpu.ram[0x300] = 0xA5;
    cpu.ram[0x301] = 0x3C;
    let before = cpu.vram;
    let opcode = OpCode::new(0xD1, 0x21);
    cpu.execute_op_dxyn(&opcode);
    assert_eq!(cpu.registers[15], 0);
    cpu.execute_op_dxyn(&opcode);
    assert_eq!(cpu.registers[15], 1);
    assert_eq!(cpu.vram, before);
}

#[test]
fn draw_wraps_around_screen_edges() {
    // Coordinates wrap: a sprite at column 62, row 31 spills over to
    // column 0 and row 0.
    let mut cpu = CPU::new();
    cpu.registers[0] = 62;
    cpu.registers[1] = 31;
    cpu.index = 0x300;
    cpu.ram[0x300] = 0xFF;
    cpu.ram[0x301] = 0xFF;
    let opcode = OpCode::new(0xD0, 0x11);
    cpu.execute_op_dxyn(&opcode);
    assert_eq!(cpu.vram[31][62], 1);
    assert_eq!(cpu.vram[31][63], 1);
    assert_eq!(cpu.vram[31][0], 1);
    assert_eq!(cpu.vram[31][5], 1);
    assert_eq!(cpu.vram[0][62], 1);
    assert_eq!(cpu.vram[0][3], 1);
    assert_eq!(cpu.vram[1][62], 0);
}

#[test]
fn draw_collision_flag_set_on_overlap() {
    let mut cpu = CPU::new();
    cpu.vram[0][0] = 1;
    cpu.index = 0x300;
    cpu.ram[0x300] = 0x80;
    let opcode = OpCode::new(0xD0, 0x10);
    cpu.execute_op_dxyn(&opcode);
    assert_eq!(cpu.vram[0][0], 0);
    assert_eq!(cpu.registers[15], 1);
}

#[test]
fn only_the_exact_clear_pair_clears() {
    // Under the leading pair 0x00, only the exact byte pair 0x00 0xE0
    // clears the screen; any other trailing value is a subroutine return.
    let mut cpu = CPU::new();
    cpu.vram[2][2] = 1;
    cpu.sp = 1;
    cpu.stack[0] = 0x300;
    cpu.load(&[0x00, 0x00]).unwrap();
    cpu.cycle(NO_KEYS).unwrap();
    assert_eq!(cpu.pc, 0x300);
    assert_eq!(cpu.sp, 0);
    assert_eq!(cpu.vram[2][2], 1);

    let mut cpu = CPU::new();
    cpu.vram[2][2] = 1;
    cpu.sp = 1;
    cpu.stack[0] = 0x300;
    cpu.load(&[0x00, 0xD0]).unwrap();
    cpu.cycle(NO_KEYS).unwrap();
    assert_eq!(cpu.pc, 0x300);
    assert_eq!(cpu.sp, 0);
    assert_eq!(cpu.vram[2][2], 1);

    let mut cpu = CPU::new();
    cpu.vram[2][2] = 1;
    cpu.sp = 1;
    cpu.stack[0] = 0x300;
    cpu.load(&[0x00, 0xE0]).unwrap();
    cpu.cycle(NO_KEYS).unwrap();
    assert_eq!(cpu.pc, 0x202);
    assert_eq!(cpu.sp, 1);
    assert_eq!(cpu.vram[2][2], 0);
}

#[test]
fn return_with_empty_stack_is_reported() {
    let mut cpu = CPU::new();
    cpu.load(&[0x00, 0xEE]).unwrap();
    let out = cpu.cycle(NO_KEYS);
    assert_eq!(out.unwrap_err(), CpuError::StackUnderflow);
    // The faulting instruction left the machine where it was.
    assert_eq!(cpu.pc, 0x200);
    assert_eq!(cpu.sp, 0);
}

#[test]
fn call_beyond_sixteen_levels_is_reported() {
    // A chain of calls back to the same address nests until the 16 stack
    // slots are full; the 17th call is refused.
    let mut cpu = CPU::new();
    cpu.load(&[0x22, 0x00]).unwrap();
    for depth in 1..=16 {
        cpu.cycle(NO_KEYS).unwrap();
        assert_eq!(cpu.sp, depth);
    }
    let out = cpu.cycle(NO_KEYS);
    assert_eq!(out.unwrap_err(), CpuError::StackOverflow);
    assert_eq!(cpu.sp, 16);
    assert_eq!(cpu.pc, 0x200);
}

#[test]
fn oversized_rom_is_rejected_before_loading() {
    let mut cpu = CPU::new();
    let image = vec![0xAB; 3585];
    let res = cpu.load(&image);
    assert_eq!(res.unwrap_err(), CpuError::RomTooLarge);
    assert_eq!(cpu.ram[0x200], 0);
    assert_eq!(cpu.ram[0xFFF], 0);
}

#[test]
fn rom_of_maximum_size_loads() {
    let mut cpu = CPU::new();
    let image = vec![0xAB; 3584];
    cpu.load(&image).unwrap();
    assert_eq!(cpu.ram[0x200], 0xAB);
    assert_eq!(cpu.ram[0xFFF], 0xAB);
    assert_eq!(cpu.ram[0x1FF], 0);
}

#[test]
fn unknown_opcode_is_a_no_op() {
    // 0x5xy1 matches no pattern: nothing changes but the program counter.
    let mut cpu = CPU::new();
    cpu.registers[1] = 7;
    cpu.registers[2] = 7;
    cpu.load(&[0x51, 0x21]).unwrap();
    cpu.cycle(NO_KEYS).unwrap();
    assert_eq!(cpu.pc, 0x202);
    assert_eq!(cpu.registers[1], 7);
}

#[test]
fn random_byte_is_masked() {
    // With a zero mask the stored value is zero whatever the entropy
    // source returned; with mask 0x0F the high bits are clear.
    let mut cpu = CPU::new();
    let zero_mask = OpCode::new(0xC1, 0x00);
    cpu.execute_op_cxnn(&zero_mask);
    assert_eq!(cpu.registers[1], 0);
    let low_mask = OpCode::new(0xC2, 0x0F);
    cpu.execute_op_cxnn(&low_mask);
    assert!(cpu.registers[2] < 16);
}

#[test]
fn key_wait_latches_until_fresh_keypress() {
    // The wait opcode parks the program counter; a key that is already
    // held does not resolve the wait, a fresh key-down transition does,
    // and the key index lands in the named register.
    let mut cpu = CPU::new();
    cpu.load(&[0xF5, 0x0A]).unwrap();
    let mut held = NO_KEYS;
    held[7] = true;

    // The wait begins with key 7 already down in the same snapshot.
    cpu.cycle(held).unwrap();
    assert!(cpu.keypad_waiting);
    assert_eq!(cpu.pc, 0x200);

    // Still held: no down-transition, the machine keeps waiting.
    cpu.cycle(held).unwrap();
    assert!(cpu.keypad_waiting);
    assert_eq!(cpu.pc, 0x200);

    // Released, then pressed again: the wait resolves.
    cpu.cycle(NO_KEYS).unwrap();
    assert!(cpu.keypad_waiting);
    cpu.cycle(held).unwrap();
    assert!(!cpu.keypad_waiting);
    assert_eq!(cpu.registers[5], 7);
    assert_eq!(cpu.pc, 0x202);
}

#[test]
fn key_skip_opcodes_read_snapshot() {
    let mut cpu = CPU::new();
    cpu.registers[1] = 4;
    cpu.keypad[4] = true;
    let down = OpCode::new(0xE1, 0x9E);
    assert_eq!(cpu.execute_op_ex9e(&down), ProgramCounter::Skip);
    let up = OpCode::new(0xE1, 0xA1);
    assert_eq!(cpu.execute_op_exa1(&up), ProgramCounter::Next);
    cpu.keypad[4] = false;
    assert_eq!(cpu.execute_op_ex9e(&down), ProgramCounter::Next);
    assert_eq!(cpu.execute_op_exa1(&up), ProgramCounter::Skip);
}

#[test]
fn timers_tick_down_to_zero() {
    let mut cpu = CPU::new();
    cpu.delay_timer = 2;
    cpu.sound_timer = 1;
    assert!(cpu.sound_active());
    cpu.tick_timers();
    assert_eq!(cpu.delay_timer, 1);
    assert_eq!(cpu.sound_timer, 0);
    assert!(!cpu.sound_active());
    cpu.tick_timers();
    assert_eq!(cpu.delay_timer, 0);
    assert_eq!(cpu.sound_timer, 0);
}

#[test]
fn timer_opcodes_move_values() {
    let mut cpu = CPU::new();
    cpu.registers[3] = 42;
    let set_delay = OpCode::new(0xF3, 0x15);
    cpu.execute_op_fx15(&set_delay);
    assert_eq!(cpu.delay_timer, 42);
    let read_delay = OpCode::new(0xF6, 0x07);
    cpu.execute_op_fx07(&read_delay);
    assert_eq!(cpu.registers[6], 42);
    cpu.registers[4] = 9;
    let set_sound = OpCode::new(0xF4, 0x18);
    cpu.execute_op_fx18(&set_sound);
    assert_eq!(cpu.sound_timer, 9);
    assert!(cpu.sound_active());
}

#[test]
fn bcd_digits_are_stored_most_significant_first() {
    let mut cpu = CPU::new();
    cpu.registers[3] = 146;
    cpu.index = 0x300;
    let opcode = OpCode::new(0xF3, 0x33);
    cpu.execute_op_fx33(&opcode);
    assert_eq!(cpu.ram[0x300], 1);
    assert_eq!(cpu.ram[0x301], 4);
    assert_eq!(cpu.ram[0x302], 6);
    // Leading zeros are written explicitly.
    cpu.registers[3] = 7;
    cpu.execute_op_fx33(&opcode);
    assert_eq!(cpu.ram[0x300], 0);
    assert_eq!(cpu.ram[0x301], 0);
    assert_eq!(cpu.ram[0x302], 7);
}

#[test]
fn register_block_store_and_load_round_trip() {
    let mut cpu = CPU::new();
    for i in 0..4 {
        cpu.registers[i] = 10 + i as u8;
    }
    cpu.index = 0x320;
    let store = OpCode::new(0xF3, 0x55);
    cpu.execute_op_fx55(&store);
    assert_eq!(cpu.ram[0x320], 10);
    assert_eq!(cpu.ram[0x321], 11);
    assert_eq!(cpu.ram[0x322], 12);
    assert_eq!(cpu.ram[0x323], 13);
    assert_eq!(cpu.ram[0x324], 0);
    for i in 0..4 {
        cpu.registers[i] = 0;
    }
    let load = OpCode::new(0xF3, 0x65);
    cpu.execute_op_fx65(&load);
    assert_eq!(cpu.registers[0], 10);
    assert_eq!(cpu.registers[1], 11);
    assert_eq!(cpu.registers[2], 12);
    assert_eq!(cpu.registers[3], 13);
    assert_eq!(cpu.registers[4], 0);
}

#[test]
fn index_opcodes_wrap_and_point_at_glyphs() {
    let mut cpu = CPU::new();
    cpu.index = 0xFFFF;
    cpu.registers[2] = 2;
    let add = OpCode::new(0xF2, 0x1E);
    cpu.execute_op_fx1e(&add);
    assert_eq!(cpu.index, 1);
    cpu.registers[3] = 0xA;
    let glyph = OpCode::new(0xF3, 0x29);
    cpu.execute_op_fx29(&glyph);
    assert_eq!(cpu.index, 50);
}

#[test]
fn jump_with_offset_adds_register_zero() {
    let mut cpu = CPU::new();
    cpu.registers[0] = 0x12;
    cpu.load(&[0xB1, 0x23]).unwrap();
    cpu.cycle(NO_KEYS).unwrap();
    assert_eq!(cpu.pc, 0x135);
}

#[test]
fn reset_restores_the_initial_state() {
    let mut cpu = CPU::new();
    cpu.registers[3] = 9;
    cpu.vram[4][4] = 1;
    cpu.load(&[0x14, 0x56]).unwrap();
    cpu.cycle(NO_KEYS).unwrap();
    cpu.reset();
    assert_eq!(cpu.pc, 0x200);
    assert_eq!(cpu.sp, 0);
    assert_eq!(cpu.registers[3], 0);
    assert_eq!(cpu.vram[4][4], 0);
    assert_eq!(cpu.ram[0x200], 0);
    assert!(cpu.is_well_formed());
}

#[test]
fn sound_state_is_reported_by_cycle() {
    // Set the sound timer through its opcode, then look at the cycle
    // output: the tone is on while the timer is nonzero.
    let mut cpu = CPU::new();
    cpu.registers[1] = 1;
    cpu.load(&[0xF1, 0x18, 0x60, 0x00]).unwrap();
    let out = cpu.cycle(NO_KEYS).unwrap();
    assert!(out.beep);
    cpu.tick_timers();
    let out = cpu.cycle(NO_KEYS).unwrap();
    assert!(!out.beep);
}

#[test]
fn opcode_operand_accessors() {
    let op = OpCode::new(0x1A, 0xBC);
    assert_eq!(op.get_nnn(), 0xABC);
    assert_eq!(op.get_nn(), 0xBC);
    let op = OpCode::new(0x00, 0x00);
    assert_eq!(op.get_nnn(), 0);
    assert_eq!(op.get_nn(), 0);
}

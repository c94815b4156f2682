use ac8e::cpu::CPU;
use ac8e::cpu::CPUState;
use ac8e::input::Get;
use ac8e::input::Feed;
use ac8e::input::KeyEvent;
use ac8e::input::NcursesInput;
use ac8e::input::NullInput;
use ac8e::ram::RAM;
use ac8e::types::Chip8Error;

/// A machine whose program is the given instruction words, loaded at 0x200.
fn machine(words: &[u16]) -> CPU {
    let mut ram = RAM::new();
    let mut addr: u16 = 0x200;
    for w in words {
        ram.store_u16(addr, *w).unwrap();
        addr += 2;
    }
    CPU::new(ram)
}

fn run(cpu: &mut CPU, cycles: usize) {
    let mut input = NullInput::new();
    for _ in 0..cycles {
        assert_eq!(cpu.cycle(&mut input), Ok(CPUState::Running));
    }
}

#[test]
fn word_round_trip() {
    let mut ram = RAM::new();
    for addr in [0x000u16, 0x200, 0xFFE] {
        assert_eq!(ram.store_u16(addr, 0xBEEF), Ok(()));
        assert_eq!(ram.load_u16(addr), Ok(0xBEEF));
    }
}

#[test]
fn word_ops_out_of_bounds() {
    let mut ram = RAM::new();
    assert_eq!(ram.store_u16(0xFFF, 1), Err(Chip8Error::OutOfBounds));
    assert_eq!(ram.load_u16(0xFFF), Err(Chip8Error::OutOfBounds));
    assert_eq!(ram.store_u16(0xFFFF, 1), Err(Chip8Error::OutOfBounds));
    assert_eq!(ram.load_u16(0xFFFF), Err(Chip8Error::OutOfBounds));
}

#[test]
fn word_ops_misaligned() {
    let mut ram = RAM::new();
    assert_eq!(ram.store_u16(0x201, 1), Err(Chip8Error::Misaligned));
    assert_eq!(ram.load_u16(0x201), Err(Chip8Error::Misaligned));
}

#[test]
fn byte_round_trip() {
    let mut ram = RAM::new();
    assert_eq!(ram.store_u8(0x3FD, 0xAB), Ok(()));
    assert_eq!(ram.load_u8(0x3FD), Ok(0xAB));
    assert_eq!(ram.store_u8(0xFFF, 1), Err(Chip8Error::OutOfBounds));
    assert_eq!(ram.load_u8(0xFFF), Err(Chip8Error::OutOfBounds));
}

#[test]
fn add_wraparound_sets_carry() {
    // V0 = 0xFF, V1 = 1, ADD V0,V1: the sum wraps to 0 and VF = 1.
    let mut cpu = machine(&[0x60FF, 0x6101, 0x8014]);
    run(&mut cpu, 3);
    assert_eq!(cpu.reg(0), 0x00);
    assert_eq!(cpu.reg(0xF), 1);
}

#[test]
fn add_without_carry() {
    let mut cpu = machine(&[0x6020, 0x6101, 0x8014]);
    run(&mut cpu, 3);
    assert_eq!(cpu.reg(0), 0x21);
    assert_eq!(cpu.reg(0xF), 0);
}

#[test]
fn subtract_with_borrow() {
    // V0 = 5, V1 = 10, SUB V0,V1: VF = 0 and V0 = 251.
    let mut cpu = machine(&[0x6005, 0x610A, 0x8015]);
    run(&mut cpu, 3);
    assert_eq!(cpu.reg(0xF), 0);
    assert_eq!(cpu.reg(0), 251);
}

#[test]
fn subtract_without_borrow() {
    let mut cpu = machine(&[0x600A, 0x6105, 0x8015]);
    run(&mut cpu, 3);
    assert_eq!(cpu.reg(0xF), 1);
    assert_eq!(cpu.reg(0), 5);
}

#[test]
fn add_immediate_wraps_without_flag() {
    // ADD Vx,kk wraps but defines no carry flag.
    let mut cpu = machine(&[0x60FF, 0x7001]);
    run(&mut cpu, 2);
    assert_eq!(cpu.reg(0), 0);
    assert_eq!(cpu.reg(0xF), 0);
}

#[test]
fn register_ops() {
    // V0 = 0b1100, V1 = 0b1010: OR, AND, XOR, copy.
    let mut cpu = machine(&[0x600C, 0x610A, 0x8011]);
    run(&mut cpu, 3);
    assert_eq!(cpu.reg(0), 0x0E);
    let mut cpu = machine(&[0x600C, 0x610A, 0x8012]);
    run(&mut cpu, 3);
    assert_eq!(cpu.reg(0), 0x08);
    let mut cpu = machine(&[0x600C, 0x610A, 0x8013]);
    run(&mut cpu, 3);
    assert_eq!(cpu.reg(0), 0x06);
    let mut cpu = machine(&[0x600C, 0x610A, 0x8010]);
    run(&mut cpu, 3);
    assert_eq!(cpu.reg(0), 0x0A);
}

#[test]
fn shifts_report_shifted_out_bit() {
    let mut cpu = machine(&[0x6085, 0x8006]);
    run(&mut cpu, 2);
    assert_eq!(cpu.reg(0), 0x42);
    assert_eq!(cpu.reg(0xF), 1);
    let mut cpu = machine(&[0x6085, 0x800E]);
    run(&mut cpu, 2);
    assert_eq!(cpu.reg(0), 0x0A);
    assert_eq!(cpu.reg(0xF), 1);
}

#[test]
fn reverse_subtract() {
    let mut cpu = machine(&[0x6005, 0x610A, 0x8017]);
    run(&mut cpu, 3);
    assert_eq!(cpu.reg(0), 5);
    assert_eq!(cpu.reg(0xF), 1);
}

#[test]
fn jump_and_jump_offset() {
    let mut cpu = machine(&[0x1300]);
    run(&mut cpu, 1);
    assert_eq!(cpu.pc(), 0x300);
    // JP V0,nnn: pc = nnn + V0.
    let mut cpu = machine(&[0x6004, 0xB300]);
    run(&mut cpu, 2);
    assert_eq!(cpu.pc(), 0x304);
}

#[test]
fn call_and_return() {
    // CALL 0x206; the return address 0x202 is pushed; at 0x206 a RET
    // pops it back.
    let mut cpu = machine(&[0x2206, 0x0000, 0x0000, 0x00EE]);
    run(&mut cpu, 1);
    assert_eq!(cpu.pc(), 0x206);
    assert_eq!(cpu.stack_depth(), 1);
    run(&mut cpu, 1);
    assert_eq!(cpu.pc(), 0x202);
    assert_eq!(cpu.stack_depth(), 0);
}

#[test]
fn return_with_empty_stack_underflows() {
    let mut cpu = machine(&[0x00EE]);
    let mut input = NullInput::new();
    assert_eq!(cpu.cycle(&mut input), Err(Chip8Error::StackUnderflow));
    // The program counter is unmodified.
    assert_eq!(cpu.pc(), 0x200);
    assert_eq!(cpu.stack_depth(), 0);
}

#[test]
fn skip_instructions() {
    // SE V0,5 skips when equal.
    let mut cpu = machine(&[0x6005, 0x3005]);
    run(&mut cpu, 2);
    assert_eq!(cpu.pc(), 0x206);
    // SNE V0,5 does not skip when equal.
    let mut cpu = machine(&[0x6005, 0x4005]);
    run(&mut cpu, 2);
    assert_eq!(cpu.pc(), 0x204);
    // SE V0,V1 with equal registers skips.
    let mut cpu = machine(&[0x6005, 0x6105, 0x5010]);
    run(&mut cpu, 3);
    assert_eq!(cpu.pc(), 0x208);
    // SNE V0,V1 with equal registers does not skip.
    let mut cpu = machine(&[0x6005, 0x6105, 0x9010]);
    run(&mut cpu, 3);
    assert_eq!(cpu.pc(), 0x208 - 2);
}

#[test]
fn timers_load_read_and_tick() {
    // DT = 3 via V0, then V1 = DT.
    let mut cpu = machine(&[0x6003, 0xF015, 0xF107]);
    run(&mut cpu, 2);
    assert_eq!(cpu.delay_timer(), 3);
    cpu.decrement_counters();
    assert_eq!(cpu.delay_timer(), 2);
    run(&mut cpu, 1);
    assert_eq!(cpu.reg(1), 2);
    // Timers floor at zero.
    cpu.decrement_counters();
    cpu.decrement_counters();
    cpu.decrement_counters();
    assert_eq!(cpu.delay_timer(), 0);
    assert_eq!(cpu.sound_timer(), 0);
}

#[test]
fn sound_timer_loads() {
    let mut cpu = machine(&[0x6007, 0xF018]);
    run(&mut cpu, 2);
    assert_eq!(cpu.sound_timer(), 7);
    cpu.decrement_counters();
    assert_eq!(cpu.sound_timer(), 6);
}

#[test]
fn index_register_ops() {
    let mut cpu = machine(&[0xA123, 0x6005, 0xF01E]);
    run(&mut cpu, 1);
    assert_eq!(cpu.index_reg(), 0x123);
    run(&mut cpu, 2);
    assert_eq!(cpu.index_reg(), 0x128);
}

#[test]
fn font_lookup() {
    // I = 5 * digit for every digit up to 15.
    let mut cpu = machine(&[0x600A, 0xF029]);
    run(&mut cpu, 2);
    assert_eq!(cpu.index_reg(), 50);
}

#[test]
fn font_lookup_above_fifteen_fails() {
    // V0 = 16: the lookup fails InvalidDigit and I is unmodified.
    let mut cpu = machine(&[0x6010, 0xF029]);
    run(&mut cpu, 1);
    let mut input = NullInput::new();
    assert_eq!(cpu.cycle(&mut input), Err(Chip8Error::InvalidDigit));
    assert_eq!(cpu.index_reg(), 0);
    assert_eq!(cpu.pc(), 0x202);
}

#[test]
fn bcd_store_and_block_load() {
    // V0 = 251, I = 0x300, store BCD, then load V0..V2 back: 2, 5, 1.
    let mut cpu = machine(&[0x60FB, 0xA300, 0xF033, 0xF265]);
    run(&mut cpu, 4);
    assert_eq!(cpu.reg(0), 2);
    assert_eq!(cpu.reg(1), 5);
    assert_eq!(cpu.reg(2), 1);
    // The index register itself is unchanged afterward.
    assert_eq!(cpu.index_reg(), 0x300);
}

#[test]
fn block_store_and_load() {
    // Store V0..V2 at I, overwrite the registers, load them back.
    let mut cpu = machine(&[
        0x6011, 0x6122, 0x6233, 0xA400, 0xF255, 0x6000, 0x6100, 0x6200, 0xF265,
    ]);
    run(&mut cpu, 9);
    assert_eq!(cpu.reg(0), 0x11);
    assert_eq!(cpu.reg(1), 0x22);
    assert_eq!(cpu.reg(2), 0x33);
    assert_eq!(cpu.index_reg(), 0x400);
}

#[test]
fn block_ops_out_of_bounds() {
    // I = 0xFFE and x = 2 would run past the last valid address.
    let mut cpu = machine(&[0xAFFE, 0xF255]);
    run(&mut cpu, 1);
    let mut input = NullInput::new();
    assert_eq!(cpu.cycle(&mut input), Err(Chip8Error::OutOfBounds));
    let mut cpu = machine(&[0xAFFE, 0xF265]);
    run(&mut cpu, 1);
    let mut input = NullInput::new();
    assert_eq!(cpu.cycle(&mut input), Err(Chip8Error::OutOfBounds));
}

#[test]
fn bcd_store_out_of_bounds() {
    let mut cpu = machine(&[0xAFFD, 0xF033]);
    run(&mut cpu, 1);
    let mut input = NullInput::new();
    assert_eq!(cpu.cycle(&mut input), Err(Chip8Error::OutOfBounds));
}

#[test]
fn random_masked_by_zero() {
    // RND V0,0x00 always leaves zero, whatever the random byte was.
    let mut cpu = machine(&[0x6055, 0xC000]);
    run(&mut cpu, 2);
    assert_eq!(cpu.reg(0), 0);
}

#[test]
fn random_respects_mask() {
    let mut cpu = machine(&[0xC00F]);
    run(&mut cpu, 1);
    assert!(cpu.reg(0) <= 0x0F);
}

#[test]
fn invalid_opcodes_fail() {
    for rom in [[0x800Fu16], [0xE000], [0xF0FF], [0xF030]] {
        let mut cpu = machine(&rom);
        let mut input = NullInput::new();
        assert_eq!(cpu.cycle(&mut input), Err(Chip8Error::InvalidOpcode));
        assert_eq!(cpu.pc(), 0x200);
    }
}

#[test]
fn sprite_read_past_memory_fails() {
    // I = 0xFFF and a five-row sprite would read past 0xFFF.
    let mut cpu = machine(&[0xAFFF, 0xD005]);
    run(&mut cpu, 1);
    let mut input = NullInput::new();
    assert_eq!(cpu.cycle(&mut input), Err(Chip8Error::IndexOverflow));
    assert_eq!(cpu.pc(), 0x202);
}

#[test]
fn fetch_out_of_range_fails() {
    // A no-op at 0xFFE pushes the program counter past the last valid
    // address; the next fetch fails OutOfBounds.
    let mut ram = RAM::new();
    ram.store_u16(0x200, 0x1FFE).unwrap();
    let mut cpu = CPU::new(ram);
    run(&mut cpu, 2);
    assert_eq!(cpu.pc(), 0x1000);
    let mut input = NullInput::new();
    assert_eq!(cpu.cycle(&mut input), Err(Chip8Error::OutOfBounds));
}

#[test]
fn fetch_misaligned_fails() {
    // Jumping to an odd address makes the next fetch fail Misaligned.
    let mut cpu = machine(&[0x1333]);
    run(&mut cpu, 1);
    let mut input = NullInput::new();
    assert_eq!(cpu.cycle(&mut input), Err(Chip8Error::Misaligned));
    assert_eq!(cpu.pc(), 0x333);
}

#[test]
fn draw_font_glyph_via_engine() {
    // I = glyph 0, draw five rows at (0, 0): the top row is 0xF0.
    let mut cpu = machine(&[0x6000, 0xF029, 0xD005]);
    run(&mut cpu, 3);
    assert_eq!(cpu.reg(0xF), 0);
    let screen = cpu.screen();
    for col in 0..4 {
        assert!(screen.cell(0, col));
    }
    for col in 4..8 {
        assert!(!screen.cell(0, col));
    }
    // Rows 1 through 3 of glyph 0 are 0x90.
    for row in 1..4 {
        assert!(screen.cell(row, 0));
        assert!(!screen.cell(row, 1));
        assert!(!screen.cell(row, 2));
        assert!(screen.cell(row, 3));
    }
    // Drawing the same glyph again erases it and reports the collision.
    let mut input = NullInput::new();
    let mut ram = RAM::new();
    ram.store_u16(0x200, 0x6000).unwrap();
    ram.store_u16(0x202, 0xF029).unwrap();
    ram.store_u16(0x204, 0xD005).unwrap();
    ram.store_u16(0x206, 0xD005).unwrap();
    let mut cpu = CPU::new(ram);
    for _ in 0..4 {
        assert_eq!(cpu.cycle(&mut input), Ok(CPUState::Running));
    }
    assert_eq!(cpu.reg(0xF), 1);
    for row in 0..5 {
        for col in 0..8 {
            assert!(!cpu.screen().cell(row, col));
        }
    }
}

#[test]
fn skip_on_key_state() {
    // SKP V0 with no key down does not skip; SKNP V0 skips.
    let mut cpu = machine(&[0xE09E, 0xE0A1]);
    run(&mut cpu, 2);
    assert_eq!(cpu.pc(), 0x206);
    // With key 4 held down ('q'), SKP V0 (V0 = 4) skips.
    let mut cpu = machine(&[0x6004, 0xE09E]);
    let mut input = NcursesInput::new();
    input.update_keys(KeyEvent::Chr('q'));
    assert_eq!(cpu.cycle(&mut input), Ok(CPUState::Running));
    assert_eq!(cpu.cycle(&mut input), Ok(CPUState::Running));
    assert_eq!(cpu.pc(), 0x206);
}

#[test]
fn wait_for_key_blocks_and_receives() {
    let mut cpu = machine(&[0xF30A]);
    let mut idle = NullInput::new();
    // No pending latch: WaitForInput, nothing moves, the identical
    // instruction is re-presented.
    assert_eq!(cpu.cycle(&mut idle), Ok(CPUState::WaitForInput));
    assert_eq!(cpu.pc(), 0x200);
    for r in 0..16 {
        assert_eq!(cpu.reg(r), 0);
    }
    assert_eq!(cpu.cycle(&mut idle), Ok(CPUState::WaitForInput));
    assert_eq!(cpu.pc(), 0x200);
    // A latch arrives: the destination register receives it exactly
    // once and the state becomes Running.
    let mut input = NcursesInput::new();
    input.update_keys(KeyEvent::Chr('z'));
    assert_eq!(cpu.cycle(&mut input), Ok(CPUState::Running));
    assert_eq!(cpu.reg(3), 0xA);
    assert_eq!(cpu.pc(), 0x202);
    // The latch was consumed: a second wait would block again.
    assert_eq!(input.last_press(), None);
}

#[test]
fn clear_screen_instruction() {
    let mut cpu = machine(&[0x6000, 0xF029, 0xD005, 0x00E0]);
    run(&mut cpu, 4);
    for row in 0..32 {
        for col in 0..64 {
            assert!(!cpu.screen().cell(row, col));
        }
    }
}

#[test]
fn machine_resets_clean() {
    let cpu = machine(&[]);
    assert_eq!(cpu.pc(), 0x200);
    assert_eq!(cpu.index_reg(), 0);
    assert_eq!(cpu.stack_depth(), 0);
    assert_eq!(cpu.delay_timer(), 0);
    assert_eq!(cpu.sound_timer(), 0);
    for r in 0..16 {
        assert_eq!(cpu.reg(r), 0);
    }
}

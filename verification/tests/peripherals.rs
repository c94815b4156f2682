use ac8e::display::NullDisplay;
use ac8e::display::Render;
use ac8e::display::ScreenRAM;
use ac8e::display::Update;
use ac8e::disasm::disasm;
use ac8e::input::Feed;
use ac8e::input::Get;
use ac8e::input::KeyEvent;
use ac8e::input::KEY_STICKY_FRAMES;
use ac8e::input::key_for_char;
use ac8e::input::NcursesInput;
use ac8e::input::NullInput;
use ac8e::types::Chip8Error;
use ac8e::types::Chip8Utils;

fn snapshot(s: &ScreenRAM) -> Vec<bool> {
    let mut cells = Vec::new();
    for row in 0..32 {
        for col in 0..64 {
            cells.push(s.cell(row, col));
        }
    }
    cells
}

#[test]
fn draw_self_inverse() {
    let mut s = ScreenRAM::new();
    // Some pre-existing pattern, away from the sprite's cells.
    s.draw(40, 20, &[0x3C, 0x42, 0x81]);
    let before = snapshot(&s);
    // Drawing an identical sprite twice restores the pattern; the second
    // draw collides, since the first left set pixels everywhere the
    // sprite has bits.
    let sprite = [0xFF, 0x18, 0x18, 0xFF];
    let first = s.draw(5, 6, &sprite);
    assert!(!first);
    let second = s.draw(5, 6, &sprite);
    assert!(second);
    assert_eq!(snapshot(&s), before);
}

#[test]
fn draw_reports_collision_per_pixel() {
    let mut s = ScreenRAM::new();
    // One pixel at (0, 0).
    assert!(!s.draw(0, 0, &[0x80]));
    // A sprite that misses it does not collide.
    assert!(!s.draw(1, 0, &[0x80]));
    // One that hits it does, and turns it off.
    assert!(s.draw(0, 0, &[0x80]));
    assert!(!s.cell(0, 0));
}

#[test]
fn draw_wraps_toroidally() {
    // An 8x5 sprite at (60, 30) touches columns 60..63 and 0..3, rows
    // 30, 31 and 0..2, and nothing else.
    let mut s = ScreenRAM::new();
    let collided = s.draw(60, 30, &[0xFF, 0xFF, 0xFF, 0xFF, 0xFF]);
    assert!(!collided);
    let rows = [30u8, 31, 0, 1, 2];
    let cols = [60u8, 61, 62, 63, 0, 1, 2, 3];
    let mut set = 0;
    for row in 0..32 {
        for col in 0..64 {
            if s.cell(row, col) {
                set += 1;
                assert!(rows.contains(&row));
                assert!(cols.contains(&col));
            }
        }
    }
    assert_eq!(set, 40);
}

#[test]
fn clear_resets_every_cell() {
    let mut s = ScreenRAM::new();
    s.draw(10, 10, &[0xFF]);
    s.clear();
    for row in 0..32 {
        for col in 0..64 {
            assert!(!s.cell(row, col));
        }
    }
}

#[test]
fn null_display_draws_like_a_screen() {
    let mut d = NullDisplay::new();
    assert!(!d.draw(0, 0, &[0x80]));
    assert!(d.draw(0, 0, &[0x80]));
    d.clear();
    d.init();
    d.render(&ScreenRAM::new(), false);
    d.uninit();
}

#[test]
fn keymap_layout() {
    assert_eq!(key_for_char('1'), Some(0x1));
    assert_eq!(key_for_char('4'), Some(0xC));
    assert_eq!(key_for_char('q'), Some(0x4));
    assert_eq!(key_for_char('r'), Some(0xD));
    assert_eq!(key_for_char('a'), Some(0x7));
    assert_eq!(key_for_char('f'), Some(0xE));
    assert_eq!(key_for_char('z'), Some(0xA));
    assert_eq!(key_for_char('x'), Some(0x0));
    assert_eq!(key_for_char('v'), Some(0xF));
    assert_eq!(key_for_char('p'), None);
    assert_eq!(key_for_char('5'), None);
}

#[test]
fn null_input_reports_nothing() {
    let mut input = NullInput::new();
    assert!(!input.pressed_esc());
    assert!(!input.pressed_key(0));
    assert!(!input.pressed_key(0xF));
    assert_eq!(input.last_press(), None);
    input.update_keys(KeyEvent::Chr('1'));
    input.decrement_keys();
    assert!(!input.pressed_key(1));
}

#[test]
fn key_press_sticks_then_decays() {
    let mut input = NcursesInput::new();
    input.update_keys(KeyEvent::Chr('w'));
    assert!(input.pressed_key(5));
    assert!(!input.pressed_key(4));
    for _ in 0..KEY_STICKY_FRAMES {
        assert!(input.pressed_key(5));
        input.decrement_keys();
    }
    assert!(!input.pressed_key(5));
}

#[test]
fn latch_is_single_use() {
    let mut input = NcursesInput::new();
    assert_eq!(input.last_press(), None);
    input.update_keys(KeyEvent::Chr('s'));
    assert_eq!(input.last_press(), Some(0x8));
    assert_eq!(input.last_press(), None);
}

#[test]
fn exit_key_raises_flag() {
    let mut input = NcursesInput::new();
    assert!(!input.pressed_esc());
    input.update_keys(KeyEvent::Exit);
    assert!(input.pressed_esc());
    // Unmapped characters and idle polls change nothing.
    input.update_keys(KeyEvent::Chr('?'));
    input.update_keys(KeyEvent::Idle);
    assert!(input.pressed_esc());
    assert_eq!(input.last_press(), None);
}

#[test]
fn keys_out_of_range_are_never_down() {
    let mut input = NcursesInput::new();
    input.update_keys(KeyEvent::Chr('1'));
    assert!(!input.pressed_key(16));
    assert!(!input.pressed_key(0xFF));
}

#[test]
fn disasm_renders_mnemonics() {
    assert_eq!(disasm(0x00E0), "CLS");
    assert_eq!(disasm(0x00EE), "RET");
    assert_eq!(disasm(0x0123), ".word   0x0123");
    assert_eq!(disasm(0x1234), "JP      0x234");
    assert_eq!(disasm(0x2ABC), "CALL    0xabc");
    assert_eq!(disasm(0x3A05), "SE      Va, 5");
    assert_eq!(disasm(0x4A63), "SNE     Va, 99");
    assert_eq!(disasm(0x5AB0), "SE      Va, Vb");
    assert_eq!(disasm(0x6AFF), "LD      Va, 255");
    assert_eq!(disasm(0x7A0C), "ADD     Va, 12");
    assert_eq!(disasm(0x8AB0), "LD      Va Vb");
    assert_eq!(disasm(0x8AB1), "OR      Va Vb");
    assert_eq!(disasm(0x8AB2), "AND     Va Vb");
    assert_eq!(disasm(0x8AB3), "XOR     Va Vb");
    assert_eq!(disasm(0x8AB4), "ADD     Va Vb");
    assert_eq!(disasm(0x8AB5), "SUB     Va Vb");
    assert_eq!(disasm(0x8AB6), "SHR     Va Vb");
    assert_eq!(disasm(0x8AB7), "SUBN    Va Vb");
    assert_eq!(disasm(0x8ABE), "SHL     Va Vb");
    assert_eq!(disasm(0x8AB8), ".word   0x8ab8");
    assert_eq!(disasm(0x9AB0), "SNE     Va Vb");
    assert_eq!(disasm(0xA123), "LD      I, 0x123");
    assert_eq!(disasm(0xB123), "JP      V0, 0x123");
    assert_eq!(disasm(0xCA0F), "RND     Va, 15");
    assert_eq!(disasm(0xDAB5), "DRW     Va, Vb, 5");
    assert_eq!(disasm(0xEA9E), "SKP     Va << INPUT");
    assert_eq!(disasm(0xEAA1), "SKNP    Va << INPUT");
    assert_eq!(disasm(0xEA00), ".word   0xea00");
    assert_eq!(disasm(0xFA07), "LD      Va, DT");
    assert_eq!(disasm(0xFA0A), "LD      Va, K << INPUT");
    assert_eq!(disasm(0xFA15), "LD      DT, Va");
    assert_eq!(disasm(0xFA18), "LD      ST, Va");
    assert_eq!(disasm(0xFA1E), "ADD     I, Va");
    assert_eq!(disasm(0xFA29), "LD      F, Va");
    assert_eq!(disasm(0xFA33), "LD      B, Va");
    assert_eq!(disasm(0xFA55), "LD      [I], Va");
    assert_eq!(disasm(0xFA65), "LD      Va, [I]");
    assert_eq!(disasm(0xFAFF), ".word   0xfaff");
}

#[test]
fn disasm_as_word_method() {
    assert_eq!(0x00E0u16.disasm(), "CLS");
    assert_eq!(0x1234u16.nibble_at(0), 1);
    assert_eq!(0x1234u16.nibble_at(1), 2);
    assert_eq!(0x1234u16.nibble_at(2), 3);
    assert_eq!(0x1234u16.nibble_at(3), 4);
}

#[test]
fn error_messages() {
    assert_eq!(Chip8Error::OutOfBounds.message(), "address out of bounds");
    assert_eq!(Chip8Error::Misaligned.message(), "word access at odd address");
    assert_eq!(
        Chip8Error::StackUnderflow.message(),
        "cannot return when the stack is empty"
    );
    assert_eq!(Chip8Error::InvalidOpcode.message(), "invalid opcode");
    assert_eq!(
        Chip8Error::IndexOverflow.message(),
        "sprite read past end of memory"
    );
    assert_eq!(Chip8Error::InvalidDigit.message(), "font lookup above digit 15");
}

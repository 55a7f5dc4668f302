use chip8::alu::{add_with_carry, bcd, sub_with_borrow};
use chip8::display::Display;
use chip8::error::Chip8Error;
use chip8::interpreter::Interpreter;
use chip8::keypad::{key_value, HostKey, Keypad};
use chip8::memory::Memory;
use chip8::stack::Stack;

fn machine(program: &[u8]) -> Interpreter {
    let mut m = Interpreter::new(8);
    m.load(program).unwrap();
    m
}

fn all_off(d: &Display) -> bool {
    for y in 0..32u8 {
        for x in 0..64u8 {
            if d.get(x, y) {
                return false;
            }
        }
    }
    true
}

#[test]
fn add_with_carry_values() {
    assert_eq!(add_with_carry(1, 2), (3, false));
    assert_eq!(add_with_carry(200, 100), (44, true));
    assert_eq!(add_with_carry(255, 1), (0, true));
    assert_eq!(add_with_carry(255, 0), (255, false));
    for a in 0..=255u16 {
        for b in 0..=255u16 {
            let (r, c) = add_with_carry(a as u8, b as u8);
            assert_eq!(r as u16, (a + b) % 256);
            assert_eq!(c, a + b > 255);
        }
    }
}

#[test]
fn sub_with_borrow_values() {
    assert_eq!(sub_with_borrow(5, 3), (2, true));
    assert_eq!(sub_with_borrow(3, 5), (254, false));
    assert_eq!(sub_with_borrow(7, 7), (0, true));
    for a in 0..=255i32 {
        for b in 0..=255i32 {
            let (r, f) = sub_with_borrow(a as u8, b as u8);
            assert_eq!(r as i32, (a - b).rem_euclid(256));
            assert_eq!(f, a >= b);
        }
    }
}

#[test]
fn bcd_values() {
    assert_eq!(bcd(255), (2, 5, 5));
    assert_eq!(bcd(0), (0, 0, 0));
    assert_eq!(bcd(9), (0, 0, 9));
    assert_eq!(bcd(140), (1, 4, 0));
}

#[test]
fn bcd_instruction_writes_digits() {
    // V0 := 0xFF; I := 0x300; BCD of V0.
    let mut m = machine(&[0x60, 0xFF, 0xA3, 0x00, 0xF0, 0x33]);
    for _ in 0..3 {
        m.cycle().unwrap();
    }
    assert_eq!(m.memory.read(0x300), Ok(2));
    assert_eq!(m.memory.read(0x301), Ok(5));
    assert_eq!(m.memory.read(0x302), Ok(5));
}

#[test]
fn bcd_out_of_bounds_changes_nothing() {
    let mut m = Interpreter::new(8);
    m.i = 0xFFF;
    assert_eq!(m.execute(0xF033), Err(Chip8Error::MemoryOutOfBounds(0x1001)));
    assert_eq!(m.memory.read(0xFFF), Ok(0));
}

#[test]
fn clear_program_turns_all_pixels_off() {
    let mut m = machine(&[0x00, 0xE0]);
    m.display.set(3, 4, true);
    m.display.set(63, 31, true);
    m.cycle().unwrap();
    assert!(all_off(&m.display));
    assert_eq!(m.pc, 0x202);
}

#[test]
fn display_clear_then_get() {
    let mut d = Display::new();
    assert!(all_off(&d));
    d.set(10, 20, true);
    assert!(d.get(10, 20));
    assert!(!d.get(20, 10));
    d.clear();
    assert!(all_off(&d));
}

#[test]
fn add_program() {
    let mut m = machine(&[0x60, 0x05, 0x70, 0x03]);
    m.cycle().unwrap();
    m.cycle().unwrap();
    assert_eq!(m.v[0], 8);
    assert_eq!(m.pc, 0x204);
}

#[test]
fn add_immediate_wraps_without_flag() {
    let mut m = machine(&[0x60, 0xFF, 0x70, 0x02]);
    m.v[15] = 7;
    m.cycle().unwrap();
    m.cycle().unwrap();
    assert_eq!(m.v[0], 1);
    assert_eq!(m.v[15], 7);
}

#[test]
fn call_then_return() {
    let mut m = machine(&[0x22, 0x04, 0x00, 0x00, 0x00, 0xEE]);
    m.cycle().unwrap();
    assert_eq!(m.pc, 0x204);
    assert_eq!(m.stack.len(), 1);
    m.cycle().unwrap();
    assert_eq!(m.pc, 0x202);
    assert_eq!(m.stack.len(), 0);
}

#[test]
fn jump_with_offset() {
    let mut m = machine(&[0x60, 0x10, 0xB2, 0x00]);
    m.cycle().unwrap();
    m.cycle().unwrap();
    assert_eq!(m.pc, 0x210);
}

#[test]
fn random_with_zero_mask_is_zero() {
    let mut m = Interpreter::new(8);
    for _ in 0..50 {
        m.v[3] = 0x55;
        m.execute(0xC300).unwrap();
        assert_eq!(m.v[3], 0);
    }
    for r in 0..=255u8 {
        m.execute_with_random(0xC300, r).unwrap();
        assert_eq!(m.v[3], 0);
    }
    m.execute_with_random(0xC30F, 0xAB).unwrap();
    assert_eq!(m.v[3], 0x0B);
}

#[test]
fn draw_twice_restores_and_collides() {
    // I := glyph of 0; draw 5 rows at (V0, V1) = (62, 30), wrapping.
    let mut m = machine(&[0x60, 0x3E, 0x61, 0x1E, 0xA0, 0x00, 0xD0, 0x15, 0xD0, 0x15]);
    m.display.set(5, 5, true);
    for _ in 0..4 {
        m.cycle().unwrap();
    }
    assert_eq!(m.v[15], 0);
    // The glyph's top row 0xF0 covers columns 62, 63, 0, 1 of row 30.
    assert!(m.display.get(62, 30));
    assert!(m.display.get(63, 30));
    assert!(m.display.get(0, 30));
    assert!(m.display.get(1, 30));
    assert!(!m.display.get(2, 30));
    // Rows wrap: the third glyph row lands on row 0.
    assert!(m.display.get(62, 0));
    m.cycle().unwrap();
    assert_eq!(m.v[15], 1);
    for y in 0..32u8 {
        for x in 0..64u8 {
            assert_eq!(m.display.get(x, y), x == 5 && y == 5);
        }
    }
}

#[test]
fn draw_sprite_reports_collision() {
    let mut d = Display::new();
    assert!(!d.draw_sprite(&[0x80], 0, 0));
    assert!(d.get(0, 0));
    assert!(d.draw_sprite(&[0xC0], 0, 0));
    assert!(!d.get(0, 0));
    assert!(d.get(1, 0));
}

#[test]
fn timers_tick_once_per_frame() {
    // V0 := 10; delay := V0; sound := V0; loop forever.
    let program = [0x60, 0x0A, 0xF0, 0x15, 0xF0, 0x18, 0x12, 0x06];
    for cycles in [8u16, 64, 500] {
        let mut m = Interpreter::new(cycles);
        m.load(&program).unwrap();
        m.update().unwrap();
        assert_eq!(m.delay_timer, 9);
        assert_eq!(m.sound_timer, 9);
        m.update().unwrap();
        assert_eq!(m.delay_timer, 8);
        assert_eq!(m.sound_timer, 8);
    }
}

#[test]
fn timers_stop_at_zero() {
    let mut m = Interpreter::new(4);
    m.load(&[0x12, 0x00]).unwrap();
    m.delay_timer = 1;
    m.update().unwrap();
    assert_eq!(m.delay_timer, 0);
    m.update().unwrap();
    assert_eq!(m.delay_timer, 0);
}

#[test]
fn update_stops_at_first_error() {
    let mut m = Interpreter::new(8);
    m.load(&[0x60, 0x01, 0xFF, 0xFF]).unwrap();
    m.delay_timer = 5;
    assert_eq!(m.update(), Err(Chip8Error::UnknownOpcode(0xFFFF)));
    assert_eq!(m.v[0], 1);
    assert_eq!(m.pc, 0x202);
    assert_eq!(m.delay_timer, 5);
}

#[test]
fn unknown_opcode_changes_nothing() {
    let mut m = machine(&[0x51, 0x21]);
    assert_eq!(m.cycle(), Err(Chip8Error::UnknownOpcode(0x5121)));
    assert_eq!(m.pc, 0x200);
    assert_eq!(m.execute(0x0123), Err(Chip8Error::UnknownOpcode(0x0123)));
    assert_eq!(m.execute(0x800F), Err(Chip8Error::UnknownOpcode(0x800F)));
    assert_eq!(m.execute(0xE0FF), Err(Chip8Error::UnknownOpcode(0xE0FF)));
}

#[test]
fn return_with_empty_stack_underflows() {
    let mut m = Interpreter::new(8);
    assert_eq!(m.execute(0x00EE), Err(Chip8Error::StackUnderflow));
    assert_eq!(m.pc, 0x200);
}

#[test]
fn seventeenth_call_overflows() {
    let mut m = Interpreter::new(8);
    for _ in 0..16 {
        m.execute(0x2300).unwrap();
    }
    assert_eq!(m.execute(0x2400), Err(Chip8Error::StackOverflow));
    assert_eq!(m.pc, 0x300);
    assert_eq!(m.stack.len(), 16);
}

#[test]
fn fetch_past_end_of_memory() {
    let mut m = Interpreter::new(8);
    m.pc = 0xFFF;
    assert_eq!(m.cycle(), Err(Chip8Error::MemoryOutOfBounds(0x1000)));
    assert_eq!(m.pc, 0xFFF);
}

#[test]
fn rom_size_limit() {
    let mut m = Interpreter::new(8);
    assert_eq!(m.load(&vec![1u8; 3585]), Err(Chip8Error::RomTooLarge));
    assert_eq!(m.memory.read(0x200), Ok(0));
    assert_eq!(m.load(&vec![1u8; 3584]), Ok(()));
    assert_eq!(m.memory.read(0xFFF), Ok(1));
}

#[test]
fn memory_bounds() {
    let mut mem = Memory::new();
    assert_eq!(mem.read(0), Ok(0xF0));
    assert_eq!(mem.read(79), Ok(0x80));
    assert_eq!(mem.read(80), Ok(0));
    assert_eq!(mem.read(4096), Err(Chip8Error::MemoryOutOfBounds(4096)));
    assert_eq!(mem.write(4095, 9), Ok(()));
    assert_eq!(mem.read(4095), Ok(9));
    assert_eq!(mem.write(5000, 9), Err(Chip8Error::MemoryOutOfBounds(5000)));
    assert_eq!(mem.read_range(0, 5), vec![0xF0, 0x90, 0x90, 0x90, 0xF0]);
}

#[test]
fn arithmetic_flags() {
    let mut m = Interpreter::new(8);
    m.v[1] = 200;
    m.v[2] = 100;
    m.execute(0x8124).unwrap();
    assert_eq!((m.v[1], m.v[15]), (44, 1));
    m.v[1] = 3;
    m.v[2] = 5;
    m.execute(0x8125).unwrap();
    assert_eq!((m.v[1], m.v[15]), (254, 0));
    m.v[1] = 3;
    m.v[2] = 5;
    m.execute(0x8127).unwrap();
    assert_eq!((m.v[1], m.v[15]), (2, 1));
    m.v[1] = 0x03;
    m.execute(0x8106).unwrap();
    assert_eq!((m.v[1], m.v[15]), (0x01, 1));
    m.v[1] = 0x81;
    m.execute(0x810E).unwrap();
    assert_eq!((m.v[1], m.v[15]), (0x02, 1));
    m.v[1] = 0x0C;
    m.v[2] = 0x0A;
    m.execute(0x8121).unwrap();
    assert_eq!(m.v[1], 0x0E);
    m.execute(0x8122).unwrap();
    assert_eq!(m.v[1], 0x0A);
    m.execute(0x8123).unwrap();
    assert_eq!(m.v[1], 0x00);
    m.execute(0x8120).unwrap();
    assert_eq!(m.v[1], 0x0A);
}

#[test]
fn index_register_ops() {
    let mut m = Interpreter::new(8);
    m.execute(0xAFFF).unwrap();
    assert_eq!(m.i, 0xFFF);
    m.v[0] = 0xFF;
    m.execute(0xF01E).unwrap();
    assert_eq!((m.i, m.v[15]), (0x10FE, 0));
    m.i = 0xFFFF;
    m.v[0] = 1;
    m.execute(0xF01E).unwrap();
    assert_eq!((m.i, m.v[15]), (0, 1));
    m.v[0] = 0xA;
    m.execute(0xF029).unwrap();
    assert_eq!(m.i, 50);
}

#[test]
fn store_and_load_registers() {
    let mut m = Interpreter::new(8);
    for k in 0..16 {
        m.v[k] = k as u8 + 1;
    }
    m.i = 0x400;
    m.execute(0xF355).unwrap();
    assert_eq!(m.memory.read(0x403), Ok(4));
    assert_eq!(m.memory.read(0x404), Ok(0));
    for k in 0..16 {
        m.v[k] = 0;
    }
    m.execute(0xF265).unwrap();
    assert_eq!(&m.v[0..4], &[1, 2, 3, 0]);
    m.i = 0xFFE;
    assert_eq!(m.execute(0xF255), Err(Chip8Error::MemoryOutOfBounds(0x1000)));
}

#[test]
fn timer_transfers() {
    let mut m = Interpreter::new(8);
    m.v[2] = 30;
    m.execute(0xF215).unwrap();
    m.execute(0xF218).unwrap();
    assert_eq!((m.delay_timer, m.sound_timer), (30, 30));
    m.execute(0xF307).unwrap();
    assert_eq!(m.v[3], 30);
}

#[test]
fn conditional_skips() {
    let mut m = Interpreter::new(8);
    m.v[1] = 5;
    m.v[2] = 5;
    m.execute(0x3105).unwrap();
    assert_eq!(m.pc, 0x202);
    m.execute(0x4105).unwrap();
    assert_eq!(m.pc, 0x202);
    m.execute(0x5120).unwrap();
    assert_eq!(m.pc, 0x204);
    m.execute(0x9120).unwrap();
    assert_eq!(m.pc, 0x204);
    m.keypad.set_down(5, true);
    m.execute(0xE19E).unwrap();
    assert_eq!(m.pc, 0x206);
    m.execute(0xE1A1).unwrap();
    assert_eq!(m.pc, 0x206);
    m.v[1] = 0x20;
    m.execute(0xE1A1).unwrap();
    assert_eq!(m.pc, 0x208);
}

#[test]
fn wait_for_key_captures_held_key_until_release() {
    let mut m = machine(&[0xF1, 0x0A, 0x60, 0x01]);
    m.cycle().unwrap();
    assert_eq!(m.pc, 0x200);
    assert!(!m.keypad.is_waiting());
    m.keypad.set_down(7, true);
    m.cycle().unwrap();
    assert!(m.keypad.is_waiting());
    assert_eq!(m.pc, 0x202);
    m.cycle().unwrap();
    assert!(m.keypad.is_waiting());
    assert_eq!(m.pc, 0x202);
    m.keypad.set_down(7, false);
    m.cycle().unwrap();
    assert!(!m.keypad.is_waiting());
    assert_eq!(m.v[1], 7);
    m.cycle().unwrap();
    assert_eq!(m.v[0], 1);
}

#[test]
fn stack_push_pop() {
    let mut s = Stack::new();
    assert_eq!(s.pop(), Err(Chip8Error::StackUnderflow));
    assert_eq!(s.push(0x202), Ok(()));
    assert_eq!(s.push(0x300), Ok(()));
    assert_eq!(s.pop(), Ok(0x300));
    assert_eq!(s.pop(), Ok(0x202));
    for k in 0..16u16 {
        assert_eq!(s.push(k), Ok(()));
    }
    assert_eq!(s.push(99), Err(Chip8Error::StackOverflow));
    assert_eq!(s.pop(), Ok(15));
}

#[test]
fn keypad_first_key_and_mapping() {
    let mut k = Keypad::new();
    assert_eq!(k.wait_for_key(), None);
    k.set_down(9, true);
    k.set_down(3, true);
    assert_eq!(k.wait_for_key(), Some(3));
    k.update(HostKey::X, true);
    assert!(k.is_down(0));
    assert_eq!(k.wait_for_key(), Some(0));
    k.update(HostKey::X, false);
    assert!(!k.is_down(0));
    let layout = [
        HostKey::X, HostKey::Num1, HostKey::Num2, HostKey::Num3, HostKey::Q, HostKey::W,
        HostKey::E, HostKey::A, HostKey::S, HostKey::D, HostKey::Z, HostKey::C, HostKey::Num4,
        HostKey::R, HostKey::F, HostKey::V,
    ];
    for (value, key) in layout.iter().enumerate() {
        assert_eq!(key_value(*key) as usize, value);
    }
}

#[test]
fn reset_restores_initial_state() {
    let mut m = machine(&[0x60, 0x05, 0x00, 0xE0]);
    m.cycle().unwrap();
    m.display.set(1, 1, true);
    m.delay_timer = 3;
    m.reset();
    assert_eq!(m.pc, 0x200);
    assert_eq!(m.v[0], 0);
    assert_eq!(m.delay_timer, 0);
    assert_eq!(m.memory.read(0x200), Ok(0));
    assert!(all_off(&m.display));
    assert_eq!(m.cycles_per_frame, 8);
}

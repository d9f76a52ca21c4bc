//! Whole-machine behavior: ROM loading, full cycles, timers, and the
//! component types, driven as a host would drive them.

use rhip8::emu::Emu;
use rhip8::stack::Stack;
use rhip8::timer::Timer;
use rhip8::{Key, KeyPad, MainLoopHandler};

struct NullHandler;

impl MainLoopHandler for NullHandler {
    fn render(&mut self, _gfx: &Vec<u8>) {}
    fn handle_key(&mut self, _keypad: &mut KeyPad) {}
    fn beep(&mut self, _is_beeping: bool) {}
    fn quit(&self) -> bool {
        true
    }
}

/// A headless recording host: counts callbacks and remembers the last frame
/// and tone state it was handed, through shared cells the test keeps.
struct RecordingHandler {
    frames: std::rc::Rc<std::cell::Cell<usize>>,
    lit_in_last_frame: std::rc::Rc<std::cell::Cell<usize>>,
    beeping: std::rc::Rc<std::cell::Cell<bool>>,
}

impl MainLoopHandler for RecordingHandler {
    fn render(&mut self, gfx: &Vec<u8>) {
        self.frames.set(self.frames.get() + 1);
        self.lit_in_last_frame
            .set(gfx.iter().filter(|p| **p == 1).count());
    }
    fn handle_key(&mut self, _keypad: &mut KeyPad) {}
    fn beep(&mut self, is_beeping: bool) {
        self.beeping.set(is_beeping);
    }
    fn quit(&self) -> bool {
        false
    }
}

fn fresh() -> Emu<NullHandler> {
    Emu::new(600, NullHandler)
}

#[test]
fn fresh_machine_state() {
    let emu = fresh();
    assert_eq!(emu.pc(), 0x200);
    assert_eq!(emu.index_reg(), 0);
    assert_eq!(emu.stack_depth(), 0);
    assert_eq!(emu.delay_value(), 0);
    assert_eq!(emu.sound_value(), 0);
    assert_eq!(emu.hz(), 600);
    for x in 0..16 {
        assert_eq!(emu.reg(x), 0);
    }
    for col in 0..64 {
        for row in 0..32 {
            assert_eq!(emu.pixel(col, row), 0);
        }
    }
}

#[test]
fn load_rom_places_bytes_at_pc() {
    let mut emu = fresh();
    emu.load_rom(&[0xAA, 0xBB, 0xCC]);
    assert_eq!(emu.memory_byte(0x200), 0xAA);
    assert_eq!(emu.memory_byte(0x201), 0xBB);
    assert_eq!(emu.memory_byte(0x202), 0xCC);
    assert_eq!(emu.memory_byte(0x203), 0x00);
}

#[test]
fn fetch_reads_big_endian_and_advances() {
    let mut emu = fresh();
    emu.load_rom(&[0x12, 0x34, 0x56, 0x78]);
    assert_eq!(emu.fetch(), 0x1234);
    assert_eq!(emu.pc(), 0x202);
    assert_eq!(emu.fetch(), 0x5678);
    assert_eq!(emu.pc(), 0x204);
}

#[test]
fn two_clears_leave_a_dark_screen_and_pc_at_0x204() {
    let mut emu = fresh();
    emu.load_rom(&[0x00, 0xE0, 0x00, 0xE0]);
    assert_eq!(emu.cycle(), Ok(()));
    assert_eq!(emu.cycle(), Ok(()));
    assert_eq!(emu.pc(), 0x204);
    for col in 0..64 {
        for row in 0..32 {
            assert_eq!(emu.pixel(col, row), 0);
        }
    }
}

#[test]
fn drawn_glyph_matches_the_font_bitmap() {
    let mut emu = fresh();
    // I = font base of digit 0; V0 = 0; V1 = 5; draw 5 rows at (0, 5)
    emu.load_rom(&[0xA0, 0x50, 0x60, 0x00, 0x61, 0x05, 0xD0, 0x15]);
    for _ in 0..4 {
        assert_eq!(emu.cycle(), Ok(()));
    }
    assert_eq!(emu.reg(0xF), 0);
    let glyph0: [u8; 5] = [0xF0, 0x90, 0x90, 0x90, 0xF0];
    for r in 0..5usize {
        for c in 0..8usize {
            let want = (glyph0[r] >> (7 - c)) & 1;
            assert_eq!(emu.pixel(c, 5 + r), want);
        }
    }
}

#[test]
fn call_and_return_across_cycles() {
    let mut emu = fresh();
    // call 0x204; a nop; at 0x204 a return
    emu.load_rom(&[0x22, 0x04, 0x00, 0x00, 0x00, 0xEE]);
    assert_eq!(emu.cycle(), Ok(()));
    assert_eq!(emu.pc(), 0x204);
    assert_eq!(emu.stack_depth(), 1);
    assert_eq!(emu.cycle(), Ok(()));
    assert_eq!(emu.pc(), 0x202);
    assert_eq!(emu.stack_depth(), 0);
}

#[test]
fn return_without_call_faults_the_cycle() {
    let mut emu = fresh();
    emu.load_rom(&[0x00, 0xEE]);
    assert_eq!(emu.cycle(), Err(rhip8::emu::Fault::StackUnderflow));
}

#[test]
fn delay_timer_reaches_zero_after_exactly_ten_cycles_at_600hz() {
    let mut emu = fresh();
    // V0 = 1; delay = V0; then spin on a jump-to-self
    emu.load_rom(&[0x60, 0x01, 0xF0, 0x15, 0x12, 0x04]);
    assert_eq!(emu.cycle(), Ok(()));
    assert_eq!(emu.cycle(), Ok(()));
    assert_eq!(emu.delay_value(), 1);
    for _ in 0..9 {
        assert_eq!(emu.cycle(), Ok(()));
        assert_eq!(emu.delay_value(), 1);
    }
    assert_eq!(emu.cycle(), Ok(()));
    assert_eq!(emu.delay_value(), 0);
    // and it never goes below zero
    for _ in 0..5 {
        assert_eq!(emu.cycle(), Ok(()));
        assert_eq!(emu.delay_value(), 0);
    }
}

#[test]
fn wait_for_key_holds_pc_until_a_key_arrives() {
    let mut emu = fresh();
    emu.load_rom(&[0xF3, 0x0A]);
    for _ in 0..3 {
        assert_eq!(emu.cycle(), Ok(()));
        assert_eq!(emu.pc(), 0x200);
    }
    emu.press_key(Key::Seven);
    assert_eq!(emu.cycle(), Ok(()));
    assert_eq!(emu.reg(3), 0x7);
    assert_eq!(emu.pc(), 0x202);
}

#[test]
fn wait_for_key_takes_the_lowest_pressed_code() {
    let mut emu = fresh();
    emu.load_rom(&[0xF5, 0x0A]);
    emu.press_key(Key::C);
    emu.press_key(Key::Two);
    emu.press_key(Key::Nine);
    assert_eq!(emu.cycle(), Ok(()));
    assert_eq!(emu.reg(5), 0x2);
}

#[test]
fn host_callbacks_fire_every_cycle() {
    let frames = std::rc::Rc::new(std::cell::Cell::new(0));
    let lit = std::rc::Rc::new(std::cell::Cell::new(0));
    let beeping = std::rc::Rc::new(std::cell::Cell::new(false));
    let handler = RecordingHandler {
        frames: frames.clone(),
        lit_in_last_frame: lit.clone(),
        beeping: beeping.clone(),
    };
    let mut emu = Emu::new(600, handler);
    // V0 = 2; sound = V0; I = font base; draw glyph 0 at (0, 0); spin
    emu.load_rom(&[
        0x60, 0x02, 0xF0, 0x18, 0xA0, 0x50, 0x61, 0x00, 0x62, 0x00, 0xD1, 0x25, 0x12, 0x0C,
    ]);
    for _ in 0..6 {
        assert_eq!(emu.cycle(), Ok(()));
    }
    assert_eq!(frames.get(), 6);
    // glyph 0 rows 0xF0 0x90 0x90 0x90 0xF0 light 4+2+2+2+4 pixels
    assert_eq!(lit.get(), 14);
    // the sound counter is still positive, so the tone is on
    assert!(beeping.get());
    assert_eq!(emu.wants_quit(), false);
}

#[test]
fn set_hz_restarts_timers() {
    let mut emu = fresh();
    emu.exec(0x6005).unwrap();
    emu.exec(0xF015).unwrap();
    assert_eq!(emu.delay_value(), 5);
    emu.set_hz(120);
    assert_eq!(emu.hz(), 120);
    assert_eq!(emu.delay_value(), 0);
}

#[test]
fn timer_counts_down_once_per_period() {
    let mut timer = Timer::new(3);
    assert_eq!(timer.counter(), 0);
    timer.set_timer(2);
    for _ in 0..2 {
        timer.time();
        assert_eq!(timer.counter(), 2);
    }
    timer.time();
    assert_eq!(timer.counter(), 1);
    for _ in 0..3 {
        timer.time();
    }
    assert_eq!(timer.counter(), 0);
    timer.time();
    assert_eq!(timer.counter(), 0);
}

#[test]
fn timer_set_does_not_reset_the_accumulator() {
    let mut timer = Timer::new(4);
    timer.set_timer(1);
    timer.time();
    timer.time();
    timer.time();
    // three of the four ticks have accumulated; overwrite the counter
    timer.set_timer(7);
    timer.time();
    // the pending period completes on the very next tick
    assert_eq!(timer.counter(), 6);
}

#[test]
fn stack_is_last_in_first_out() {
    let mut stack: Stack<u16, 64> = Stack::new();
    assert_eq!(stack.len(), 0);
    stack.push(0x210);
    stack.push(0x220);
    stack.push(0x230);
    assert_eq!(stack.len(), 3);
    assert_eq!(stack.pop(), 0x230);
    assert_eq!(stack.pop(), 0x220);
    assert_eq!(stack.pop(), 0x210);
    assert_eq!(stack.len(), 0);
}

#[test]
fn keypad_tracks_keys_by_code() {
    let mut kp = KeyPad::default();
    assert_eq!(kp.get_pressed(), None);
    kp.press_key(Key::A);
    assert!(kp.is_pressed(0xA));
    assert!(!kp.is_pressed(0x0));
    kp.press_key(Key::Three);
    assert_eq!(kp.get_pressed(), Some(0x3));
    kp.release_key(Key::Three);
    assert_eq!(kp.get_pressed(), Some(0xA));
    kp.set_key(Key::A, false);
    assert_eq!(kp.get_pressed(), None);
    kp.set_key(Key::F, true);
    assert!(kp.is_pressed(0xF));
}

#[test]
fn key_addr_is_the_hex_code() {
    let keys = [
        Key::Zero,
        Key::One,
        Key::Two,
        Key::Three,
        Key::Four,
        Key::Five,
        Key::Six,
        Key::Seven,
        Key::Eight,
        Key::Nine,
        Key::A,
        Key::B,
        Key::C,
        Key::D,
        Key::E,
        Key::F,
    ];
    for (want, key) in keys.iter().enumerate() {
        assert_eq!(key.addr(), want);
    }
}

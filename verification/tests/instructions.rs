//! Per-instruction behavior, driven through `exec` on a fresh machine.

use rhip8::emu::{Emu, Fault};
use rhip8::{KeyPad, MainLoopHandler};

struct NullHandler;

impl MainLoopHandler for NullHandler {
    fn render(&mut self, _gfx: &Vec<u8>) {}
    fn handle_key(&mut self, _keypad: &mut KeyPad) {}
    fn beep(&mut self, _is_beeping: bool) {}
    fn quit(&self) -> bool {
        true
    }
}

fn fresh() -> Emu<NullHandler> {
    Emu::new(600, NullHandler)
}

#[test]
fn set_imm_every_register_and_value() {
    let mut emu = fresh();
    for x in 0u16..16 {
        for nn in 0u16..256 {
            assert_eq!(emu.exec(0x6000 | (x << 8) | nn), Ok(()));
            assert_eq!(emu.reg(x as u8), nn as u8);
        }
    }
}

#[test]
fn add_imm_wraps_around() {
    let mut emu = fresh();
    assert_eq!(emu.exec(0x63FF), Ok(()));
    assert_eq!(emu.exec(0x7301), Ok(()));
    assert_eq!(emu.reg(3), 0x00);
    // flags are untouched by the immediate add
    assert_eq!(emu.reg(0xF), 0x00);
}

#[test]
fn add_reg_sets_carry() {
    let mut emu = fresh();
    emu.exec(0x60FF).unwrap();
    emu.exec(0x6101).unwrap();
    emu.exec(0x8014).unwrap();
    assert_eq!(emu.reg(0), 0x00);
    assert_eq!(emu.reg(0xF), 1);

    emu.exec(0x6001).unwrap();
    emu.exec(0x6101).unwrap();
    emu.exec(0x8014).unwrap();
    assert_eq!(emu.reg(0), 0x02);
    assert_eq!(emu.reg(0xF), 0);
}

#[test]
fn sub_reg_borrow_convention() {
    let mut emu = fresh();
    emu.exec(0x6001).unwrap();
    emu.exec(0x6102).unwrap();
    emu.exec(0x8015).unwrap();
    assert_eq!(emu.reg(0), 0xFF);
    assert_eq!(emu.reg(0xF), 0);

    emu.exec(0x6002).unwrap();
    emu.exec(0x6101).unwrap();
    emu.exec(0x8015).unwrap();
    assert_eq!(emu.reg(0), 0x01);
    assert_eq!(emu.reg(0xF), 1);
}

#[test]
fn sub_from_borrow_convention() {
    let mut emu = fresh();
    emu.exec(0x6005).unwrap();
    emu.exec(0x6103).unwrap();
    emu.exec(0x8017).unwrap();
    // V0 = V1 - V0 = 3 - 5 borrows
    assert_eq!(emu.reg(0), 0xFE);
    assert_eq!(emu.reg(0xF), 0);

    emu.exec(0x6003).unwrap();
    emu.exec(0x6105).unwrap();
    emu.exec(0x8017).unwrap();
    assert_eq!(emu.reg(0), 0x02);
    assert_eq!(emu.reg(0xF), 1);
}

#[test]
fn bitwise_ops() {
    let mut emu = fresh();
    emu.exec(0x60F0).unwrap();
    emu.exec(0x610F).unwrap();
    emu.exec(0x8011).unwrap();
    assert_eq!(emu.reg(0), 0xFF);

    emu.exec(0x60CC).unwrap();
    emu.exec(0x610F).unwrap();
    emu.exec(0x8012).unwrap();
    assert_eq!(emu.reg(0), 0x0C);

    emu.exec(0x60CC).unwrap();
    emu.exec(0x61FF).unwrap();
    emu.exec(0x8013).unwrap();
    assert_eq!(emu.reg(0), 0x33);

    emu.exec(0x6A00).unwrap();
    emu.exec(0x6B77).unwrap();
    emu.exec(0x8AB0).unwrap();
    assert_eq!(emu.reg(0xA), 0x77);
}

#[test]
fn shift_right_keeps_low_bit() {
    let mut emu = fresh();
    emu.exec(0x600B).unwrap();
    emu.exec(0x8006).unwrap();
    assert_eq!(emu.reg(0), 0x05);
    assert_eq!(emu.reg(0xF), 1);

    emu.exec(0x600A).unwrap();
    emu.exec(0x8006).unwrap();
    assert_eq!(emu.reg(0), 0x05);
    assert_eq!(emu.reg(0xF), 0);
}

#[test]
fn shift_left_keeps_high_bit() {
    let mut emu = fresh();
    emu.exec(0x6081).unwrap();
    emu.exec(0x800E).unwrap();
    assert_eq!(emu.reg(0), 0x02);
    assert_eq!(emu.reg(0xF), 1);

    emu.exec(0x6041).unwrap();
    emu.exec(0x800E).unwrap();
    assert_eq!(emu.reg(0), 0x82);
    assert_eq!(emu.reg(0xF), 0);
}

#[test]
fn jump_sets_pc() {
    let mut emu = fresh();
    emu.exec(0x1abc).unwrap();
    assert_eq!(emu.pc(), 0xabc);
}

#[test]
fn jump_v0_adds_offset() {
    let mut emu = fresh();
    emu.exec(0x6007).unwrap();
    emu.exec(0xB300).unwrap();
    assert_eq!(emu.pc(), 0x307);
}

#[test]
fn skip_instructions_move_pc_by_two() {
    let mut emu = fresh();
    let pc0 = emu.pc();
    emu.exec(0x6042).unwrap();

    emu.exec(0x3042).unwrap();
    assert_eq!(emu.pc(), pc0 + 2);
    emu.exec(0x3041).unwrap();
    assert_eq!(emu.pc(), pc0 + 2);

    emu.exec(0x4041).unwrap();
    assert_eq!(emu.pc(), pc0 + 4);
    emu.exec(0x4042).unwrap();
    assert_eq!(emu.pc(), pc0 + 4);

    emu.exec(0x6142).unwrap();
    emu.exec(0x5010).unwrap();
    assert_eq!(emu.pc(), pc0 + 6);
    emu.exec(0x9010).unwrap();
    assert_eq!(emu.pc(), pc0 + 6);

    emu.exec(0x6143).unwrap();
    emu.exec(0x9010).unwrap();
    assert_eq!(emu.pc(), pc0 + 8);
}

#[test]
fn set_index_register() {
    let mut emu = fresh();
    emu.exec(0xA123).unwrap();
    assert_eq!(emu.index_reg(), 0x123);
}

#[test]
fn add_idx_reports_12_bit_overflow() {
    let mut emu = fresh();
    emu.exec(0xAFFF).unwrap();
    emu.exec(0x6001).unwrap();
    emu.exec(0xF01E).unwrap();
    assert_eq!(emu.index_reg(), 0x1000);
    assert_eq!(emu.reg(0xF), 1);

    emu.exec(0xA100).unwrap();
    emu.exec(0xF01E).unwrap();
    assert_eq!(emu.index_reg(), 0x101);
    assert_eq!(emu.reg(0xF), 0);
}

#[test]
fn random_is_masked() {
    let mut emu = fresh();
    emu.exec(0x63AA).unwrap();
    emu.exec(0xC300).unwrap();
    assert_eq!(emu.reg(3), 0);
    for _ in 0..50 {
        emu.exec(0xC20F).unwrap();
        assert!(emu.reg(2) < 16);
    }
}

#[test]
fn font_char_addresses_glyphs() {
    let font: [u8; 80] = [
        0xF0, 0x90, 0x90, 0x90, 0xF0, 0x20, 0x60, 0x20, 0x20, 0x70, 0xF0, 0x10, 0xF0, 0x80, 0xF0,
        0xF0, 0x10, 0xF0, 0x10, 0xF0, 0x90, 0x90, 0xF0, 0x10, 0x10, 0xF0, 0x80, 0xF0, 0x10, 0xF0,
        0xF0, 0x80, 0xF0, 0x90, 0xF0, 0xF0, 0x10, 0x20, 0x40, 0x40, 0xF0, 0x90, 0xF0, 0x90, 0xF0,
        0xF0, 0x90, 0xF0, 0x10, 0xF0, 0xF0, 0x90, 0xF0, 0x90, 0x90, 0xE0, 0x90, 0xE0, 0x90, 0xE0,
        0xF0, 0x80, 0x80, 0x80, 0xF0, 0xE0, 0x90, 0x90, 0x90, 0xE0, 0xF0, 0x80, 0xF0, 0x80, 0xF0,
        0xF0, 0x80, 0xF0, 0x80, 0x80,
    ];
    let mut emu = fresh();
    for d in 0u16..16 {
        emu.exec(0x6000 | d).unwrap();
        emu.exec(0xF029).unwrap();
        let addr = emu.index_reg();
        assert_eq!(addr, 0x050 + d * 5);
        for r in 0..5u16 {
            assert_eq!(
                emu.memory_byte((addr + r) as usize),
                font[(d * 5 + r) as usize]
            );
        }
    }
}

#[test]
fn bcd_writes_three_digits() {
    let mut emu = fresh();
    emu.exec(0xA300).unwrap();
    emu.exec(0x60EA).unwrap();
    emu.exec(0xF033).unwrap();
    assert_eq!(emu.memory_byte(0x300), 2);
    assert_eq!(emu.memory_byte(0x301), 3);
    assert_eq!(emu.memory_byte(0x302), 4);
}

#[test]
fn store_and_load_registers() {
    let mut emu = fresh();
    emu.exec(0xA400).unwrap();
    for x in 0u16..4 {
        emu.exec(0x6000 | (x << 8) | (0x10 + x)).unwrap();
    }
    emu.exec(0xF355).unwrap();
    for x in 0..4u16 {
        assert_eq!(emu.memory_byte((0x400 + x) as usize), 0x10 + x as u8);
    }
    // wipe and read back
    for x in 0u16..4 {
        emu.exec(0x6000 | (x << 8)).unwrap();
    }
    emu.exec(0xF365).unwrap();
    for x in 0..4u8 {
        assert_eq!(emu.reg(x), 0x10 + x);
    }
    // V4 was never part of the range
    assert_eq!(emu.reg(4), 0);
}

#[test]
fn get_and_set_timers() {
    let mut emu = fresh();
    emu.exec(0x6030).unwrap();
    emu.exec(0xF015).unwrap();
    assert_eq!(emu.delay_value(), 0x30);
    emu.exec(0xF018).unwrap();
    assert_eq!(emu.sound_value(), 0x30);
    emu.exec(0xF207).unwrap();
    assert_eq!(emu.reg(2), 0x30);
}

#[test]
fn key_skips_follow_keypad() {
    let mut emu = fresh();
    emu.exec(0x6005).unwrap();
    let pc0 = emu.pc();
    emu.exec(0xE09E).unwrap();
    assert_eq!(emu.pc(), pc0);
    emu.exec(0xE0A1).unwrap();
    assert_eq!(emu.pc(), pc0 + 2);

    emu.press_key(rhip8::Key::Five);
    emu.exec(0xE09E).unwrap();
    assert_eq!(emu.pc(), pc0 + 4);
    emu.exec(0xE0A1).unwrap();
    assert_eq!(emu.pc(), pc0 + 4);
}

#[test]
fn unknown_opcodes_are_no_ops() {
    let mut emu = fresh();
    let pc0 = emu.pc();
    for ins in [0x0000u16, 0x0123, 0x5011, 0x8008, 0x9aa1, 0xE000, 0xF0FF] {
        assert_eq!(emu.exec(ins), Ok(()));
    }
    assert_eq!(emu.pc(), pc0);
    assert_eq!(emu.index_reg(), 0);
    assert_eq!(emu.stack_depth(), 0);
}

#[test]
fn return_on_empty_stack_is_fatal() {
    let mut emu = fresh();
    assert_eq!(emu.exec(0x00EE), Err(Fault::StackUnderflow));
    // the fault leaves the machine untouched
    assert_eq!(emu.pc(), 0x200);
}

#[test]
fn call_past_capacity_is_fatal() {
    let mut emu = fresh();
    for depth in 1..=63usize {
        assert_eq!(emu.exec(0x2300), Ok(()));
        assert_eq!(emu.stack_depth(), depth);
    }
    assert_eq!(emu.exec(0x2300), Err(Fault::StackOverflow));
    assert_eq!(emu.stack_depth(), 63);
}

#[test]
fn call_then_return_restores_pc() {
    let mut emu = fresh();
    let pc0 = emu.pc();
    emu.exec(0x2400).unwrap();
    assert_eq!(emu.pc(), 0x400);
    assert_eq!(emu.stack_depth(), 1);
    emu.exec(0x00EE).unwrap();
    assert_eq!(emu.pc(), pc0);
    assert_eq!(emu.stack_depth(), 0);
}

#[test]
fn draw_detects_collision_and_restores_on_redraw() {
    let mut emu = fresh();
    // glyph 0 from the font table at (4, 9)
    emu.exec(0xA050).unwrap();
    emu.exec(0x6004).unwrap();
    emu.exec(0x6109).unwrap();
    emu.exec(0xD015).unwrap();
    assert_eq!(emu.reg(0xF), 0);
    assert_eq!(emu.pixel(4, 9), 1);

    // drawing the identical sprite again collides and clears every pixel
    emu.exec(0xD015).unwrap();
    assert_eq!(emu.reg(0xF), 1);
    for col in 0..64 {
        for row in 0..32 {
            assert_eq!(emu.pixel(col, row), 0);
        }
    }
}

#[test]
fn draw_clips_at_the_edges() {
    let mut emu = fresh();
    // an 8x5 sprite whose origin wraps to (62, 30): only a 2x2 corner fits
    emu.exec(0xA050).unwrap();
    emu.exec(0x603E).unwrap();
    emu.exec(0x613E).unwrap();
    emu.exec(0xD015).unwrap();
    assert_eq!(emu.reg(0xF), 0);
    // glyph 0 row 0 is 0xF0: bits at columns 62 and 63 are set
    assert_eq!(emu.pixel(62, 30), 1);
    assert_eq!(emu.pixel(63, 30), 1);
    // row 1 is 0x90: bit 0 set, bit 1 clear
    assert_eq!(emu.pixel(62, 31), 1);
    assert_eq!(emu.pixel(63, 31), 0);
    // nothing wrapped to the opposite edges
    for col in 0..64 {
        assert_eq!(emu.pixel(col, 0), 0);
    }
    for row in 0..32 {
        assert_eq!(emu.pixel(0, row), 0);
    }
}

#[test]
fn clear_screen_darkens_everything() {
    let mut emu = fresh();
    emu.exec(0xA050).unwrap();
    emu.exec(0x6000).unwrap();
    emu.exec(0x6100).unwrap();
    emu.exec(0xD015).unwrap();
    assert_eq!(emu.pixel(0, 0), 1);
    emu.exec(0x00E0).unwrap();
    for col in 0..64 {
        for row in 0..32 {
            assert_eq!(emu.pixel(col, row), 0);
        }
    }
}

#[test]
fn wait_key_rewinds_and_resolves() {
    let mut emu = fresh();
    // simulate the fetched state: pc has already moved past the instruction
    let mut f = emu.fetch();
    assert_eq!(f, 0); // empty memory fetches zero words
    assert_eq!(emu.pc(), 0x202);
    emu.exec(0xF30A).unwrap();
    assert_eq!(emu.pc(), 0x200);

    emu.press_key(rhip8::Key::B);
    f = emu.fetch();
    assert_eq!(f, 0);
    emu.exec(0xF30A).unwrap();
    assert_eq!(emu.reg(3), 0xB);
    assert_eq!(emu.pc(), 0x202);
}

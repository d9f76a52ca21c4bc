//! A verified CHIP-8 virtual machine: a 4KB memory with the standard font
//! glyphs, sixteen 8-bit registers, a bounded call stack, two decay timers, a
//! 16-key keypad, a 64x32 monochrome framebuffer, and the fetch/decode/execute
//! engine that drives them.

use vstd::prelude::*;

pub mod emu;
pub mod keypad;
pub mod laws;
pub mod stack;
pub mod timer;

pub use keypad::Key;
pub use keypad::KeyPad;

verus! {

/// The capabilities a host must supply to run the machine: it draws the
/// framebuffer, feeds physical key events into the keypad, drives the audio
/// tone, and answers whether the run should stop. Nothing is assumed of any
/// implementation; the interpreter's contracts hold whatever a host does.
pub trait MainLoopHandler {
    /// Present the 64x32 framebuffer; each byte is 0 (dark) or 1 (lit).
    fn render(&mut self, gfx: &Vec<u8>);

    /// Update the 16 key slots from the host's input events.
    fn handle_key(&mut self, keypad: &mut KeyPad);

    /// Start or keep the tone while `is_beeping` holds, stop it otherwise.
    fn beep(&mut self, is_beeping: bool);

    /// Whether the main loop should stop after this cycle.
    fn quit(&self) -> bool;
}

} // verus!

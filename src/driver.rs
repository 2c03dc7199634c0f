use vstd::prelude::*;

verus! {

/// Shows the frame buffer; handed a full snapshot after every change.
pub trait Display {
    fn refresh(&mut self, vram: &[bool]);
}

/// Starts and stops the tone; both calls may be repeated.
pub trait Sound: Send {
    fn start_buzz(&self);

    fn stop_buzz(&self);
}

/// The keypad: a non-blocking query of one key, and a wait for any key.
pub trait Input {
    fn poll(&self, key: u8) -> bool;

    fn block(&self) -> u8;
}

} // verus!

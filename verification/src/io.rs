//! The joypad and the text console of the Game Boy.

use vstd::prelude::*;

verus! {

/// The keys of the joypad, each with its own bit in a joypad reading.
#[derive(Clone, Copy, Debug, PartialEq, Eq, Structural)]
pub enum JoypadKey {
    /// Right on the direction pad, bit 0.
    Right,
    /// Left on the direction pad, bit 1.
    Left,
    /// Up on the direction pad, bit 2.
    Up,
    /// Down on the direction pad, bit 3.
    Down,
    /// The A button, bit 4.
    A,
    /// The B button, bit 5.
    B,
    /// The Select button, bit 6.
    Select,
    /// The Start button, bit 7.
    Start,
}

impl JoypadKey {
    /// The bit of the key in a joypad reading.
    pub open spec fn mask(self) -> u8 {
        match self {
            JoypadKey::Right => 0x01,
            JoypadKey::Left => 0x02,
            JoypadKey::Up => 0x04,
            JoypadKey::Down => 0x08,
            JoypadKey::A => 0x10,
            JoypadKey::B => 0x20,
            JoypadKey::Select => 0x40,
            JoypadKey::Start => 0x80,
        }
    }

    /// The bit of the key in a joypad reading.
    pub fn bit(self) -> (mask: u8)
        ensures
            mask == self.mask(),
    {
        match self {
            JoypadKey::Right => 0x01,
            JoypadKey::Left => 0x02,
            JoypadKey::Up => 0x04,
            JoypadKey::Down => 0x08,
            JoypadKey::A => 0x10,
            JoypadKey::B => 0x20,
            JoypadKey::Select => 0x40,
            JoypadKey::Start => 0x80,
        }
    }
}

/// One reading of the joypad: a bit is set for every key that is held down.
#[derive(Clone, Copy, Debug, PartialEq, Eq, Structural)]
pub struct Joypad(pub u8);

/// The reading that two values of the joypad register stand for. The
/// register is read once with the buttons selected and once with the
/// direction pad selected; in both its low four bits are clear for the keys
/// that are held down. The buttons go to the high four bits of the reading,
/// the direction pad to the low four.
pub open spec fn joypad_bits(buttons: u8, d_pad: u8) -> u8 {
    !((((buttons << 4) | 0x0f) & (d_pad | 0xf0)) as u8)
}

impl Joypad {
    /// The key is held down in this reading.
    pub open spec fn holds(self, key: JoypadKey) -> bool {
        self.0 & key.mask() != 0
    }

    /// Puts a reading together from the joypad register as it reads with the
    /// buttons selected and as it reads with the direction pad selected.
    pub fn read(buttons: u8, d_pad: u8) -> (pad: Joypad)
        ensures
            pad.0 == joypad_bits(buttons, d_pad),
    {
        let high: u8 = (buttons << 4) | 0x0f;
        let low: u8 = d_pad | 0xf0;
        Joypad(!(high & low))
    }

    /// Tells whether `key` is held down.
    pub fn pressed(&self, key: JoypadKey) -> (down: bool)
        ensures
            down == self.holds(key),
    {
        self.0 & key.bit() != 0
    }

    /// Tells whether the A button is held down.
    pub fn a(&self) -> (down: bool)
        ensures
            down == self.holds(JoypadKey::A),
    {
        self.0 & 0x10 != 0
    }

    /// Tells whether the B button is held down.
    pub fn b(&self) -> (down: bool)
        ensures
            down == self.holds(JoypadKey::B),
    {
        self.0 & 0x20 != 0
    }

    /// Tells whether the Select button is held down.
    pub fn select(&self) -> (down: bool)
        ensures
            down == self.holds(JoypadKey::Select),
    {
        self.0 & 0x40 != 0
    }

    /// Tells whether the Start button is held down.
    pub fn start(&self) -> (down: bool)
        ensures
            down == self.holds(JoypadKey::Start),
    {
        self.0 & 0x80 != 0
    }

    /// Tells whether Right is held down.
    pub fn right(&self) -> (down: bool)
        ensures
            down == self.holds(JoypadKey::Right),
    {
        self.0 & 0x01 != 0
    }

    /// Tells whether Left is held down.
    pub fn left(&self) -> (down: bool)
        ensures
            down == self.holds(JoypadKey::Left),
    {
        self.0 & 0x02 != 0
    }

    /// Tells whether Up is held down.
    pub fn up(&self) -> (down: bool)
        ensures
            down == self.holds(JoypadKey::Up),
    {
        self.0 & 0x04 != 0
    }

    /// Tells whether Down is held down.
    pub fn down(&self) -> (down: bool)
        ensures
            down == self.holds(JoypadKey::Down),
    {
        self.0 & 0x08 != 0
    }

    /// Tells whether any key is held down: what a wait for a key press
    /// waits for, and what a wait for the release of all keys waits to end.
    pub fn any(&self) -> (down: bool)
        ensures
            down == (self.0 != 0),
    {
        self.0 != 0
    }

    /// The reading as a byte.
    pub fn bits(self) -> (bits: u8)
        ensures
            bits == self.0,
    {
        self.0
    }
}

/// The text console.
#[derive(Clone, Copy, Debug, PartialEq, Eq, Structural)]
pub struct GbStream {}

impl GbStream {
    /// The console.
    pub fn stream() -> (console: GbStream) {
        GbStream {  }
    }
}

} // verus!

//! The interrupts of the Game Boy and the set of those that are enabled.

use vstd::prelude::*;

verus! {

/// The five interrupts, each with its own bit in the interrupt flags.
#[derive(Clone, Copy, Debug, PartialEq, Eq, Structural)]
pub enum InterruptKind {
    /// The vertical blank, bit 0.
    VBlank,
    /// The LCD status, bit 1.
    LCD,
    /// The timer, bit 2.
    Timer,
    /// The serial link, bit 3.
    Serial,
    /// The joypad, bit 4.
    Joypad,
}

impl InterruptKind {
    /// The bit of the interrupt in the interrupt flags.
    pub open spec fn mask(self) -> u8 {
        match self {
            InterruptKind::VBlank => 0x01,
            InterruptKind::LCD => 0x02,
            InterruptKind::Timer => 0x04,
            InterruptKind::Serial => 0x08,
            InterruptKind::Joypad => 0x10,
        }
    }

    /// The bit of the interrupt in the interrupt flags.
    pub fn bit(self) -> (mask: u8)
        ensures
            mask == self.mask(),
    {
        match self {
            InterruptKind::VBlank => 0x01,
            InterruptKind::LCD => 0x02,
            InterruptKind::Timer => 0x04,
            InterruptKind::Serial => 0x08,
            InterruptKind::Joypad => 0x10,
        }
    }
}

/// Collects the interrupts that are to be enabled.
#[derive(Clone, Copy, Debug, PartialEq, Eq, Structural)]
pub struct InterruptBuilder {
    /// The flags of the interrupts collected so far.
    pub int_flag: u8,
}

impl InterruptBuilder {
    /// A builder with no interrupt collected.
    pub fn new() -> (builder: InterruptBuilder)
        ensures
            builder.int_flag == 0,
    {
        InterruptBuilder { int_flag: 0 }
    }

    /// Adds the interrupt `kind` to those collected.
    pub fn add(&mut self, kind: InterruptKind)
        ensures
            final(self).int_flag == old(self).int_flag | kind.mask(),
    {
        self.int_flag = self.int_flag | kind.bit();
    }

    /// The flags to hand to the hardware when the interrupts are enabled.
    pub fn flags(&self) -> (flags: u8)
        ensures
            flags == self.int_flag,
    {
        self.int_flag
    }
}

} // verus!

//! The controller instructions the driver issues.

use vstd::prelude::*;

verus! {

/// ST7789 instructions used by this driver. Each is identified on the wire by
/// a single opcode byte, sent in command context.
#[allow(non_camel_case_types)]
#[derive(Clone, Copy, PartialEq, Eq, Structural, Debug)]
pub enum Instruction {
    /// Software reset.
    SWRESET,
    /// Sleep out: leave the power-saving sleep mode.
    SLPOUT,
    /// Normal display mode on.
    NORON,
    /// Display inversion off.
    INVOFF,
    /// Display inversion on.
    INVON,
    /// Display on.
    DISPON,
    /// Column address set: the x extent of the address window.
    CASET,
    /// Row address set: the y extent of the address window.
    RASET,
    /// Memory write: pixel data for the address window follows.
    RAMWR,
    /// Memory data access control: orientation and scan order.
    MADCTL,
    /// Interface pixel format.
    COLMOD,
}

impl Instruction {
    /// The opcode byte that identifies this instruction.
    pub open spec fn opcode(self) -> u8 {
        match self {
            Instruction::SWRESET => 0x01,
            Instruction::SLPOUT => 0x11,
            Instruction::NORON => 0x13,
            Instruction::INVOFF => 0x20,
            Instruction::INVON => 0x21,
            Instruction::DISPON => 0x29,
            Instruction::CASET => 0x2a,
            Instruction::RASET => 0x2b,
            Instruction::RAMWR => 0x2c,
            Instruction::MADCTL => 0x36,
            Instruction::COLMOD => 0x3a,
        }
    }

    /// Returns the instruction's opcode byte.
    pub fn to_u8(&self) -> (r: u8)
        ensures
            r == self.opcode(),
    {
        match self {
            Instruction::SWRESET => 0x01,
            Instruction::SLPOUT => 0x11,
            Instruction::NORON => 0x13,
            Instruction::INVOFF => 0x20,
            Instruction::INVON => 0x21,
            Instruction::DISPON => 0x29,
            Instruction::CASET => 0x2a,
            Instruction::RASET => 0x2b,
            Instruction::RAMWR => 0x2c,
            Instruction::MADCTL => 0x36,
            Instruction::COLMOD => 0x3a,
        }
    }
}

} // verus!

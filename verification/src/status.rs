//! Coprocessor 0 register 12 (the Status Register): cache isolation, boot
//! exception vector selection, and the three-deep {kernel/user,
//! interrupt-enable} mode stack held in bits [5:0].

use vstd::prelude::*;

verus! {

/// Bits [5:0] shifted two places left within the low six bits: entering an
/// exception pushes a pair of zeroes onto the mode stack and discards the
/// oldest entry.
pub open spec fn enter_exception_spec(sr: u32) -> u32 {
    (sr & !0x3fu32) | ((sr & 0x3f) << 2 & 0x3f)
}

/// Bits [5:0] shifted two places right: leaving an exception pops the mode
/// stack, keeping the two remaining entries and clearing the top pair.
pub open spec fn return_from_exception_spec(sr: u32) -> u32 {
    (sr & !0x3fu32) | ((sr & 0x3f) >> 2)
}

/// The boot exception vector bit (bit 22) selects the exception handler
/// address.
pub open spec fn exception_handler_spec(sr: u32) -> u32 {
    if sr & 0x40_0000 != 0 {
        0xbfc0_0180
    } else {
        0x8000_0080
    }
}

/// Bit 16 diverts stores into cache maintenance.
pub open spec fn cache_isolated_spec(sr: u32) -> bool {
    sr & 0x1_0000 != 0
}

/// Coprocessor 0 register 12: the Status Register.
#[derive(Clone, Copy, PartialEq, Eq, Structural)]
pub struct StatusRegister(pub u32);

impl StatusRegister {
    /// The raw 32-bit register value.
    pub fn as_u32(self) -> (r: u32)
        ensures
            r == self.0,
    {
        self.0
    }

    /// True when stores must be diverted away from the bus into cache
    /// maintenance.
    pub fn cache_isolated(self) -> (r: bool)
        ensures
            r == cache_isolated_spec(self.0),
    {
        self.0 & 0x1_0000 != 0
    }

    /// The exception handler address selected by the BEV bit.
    pub fn exception_handler(self) -> (r: u32)
        ensures
            r == exception_handler_spec(self.0),
    {
        if self.0 & 0x40_0000 != 0 {
            0xbfc0_0180
        } else {
            0x8000_0080
        }
    }

    /// Push a pair of zeroes onto the mode stack in bits [5:0], discarding
    /// the oldest entry: the CPU enters kernel mode with interrupts
    /// disabled.
    pub fn enter_exception(&mut self)
        ensures
            final(self).0 == enter_exception_spec(old(self).0),
    {
        let sr = self.0;
        let mode = sr & 0x3f;
        let sr = sr & !0x3fu32;
        let sr = sr | (mode << 2u32 & 0x3f);
        *self = StatusRegister(sr);
    }

    /// Pop the mode stack in bits [5:0], discarding the current pair and
    /// restoring the pre-exception mode.
    pub fn return_from_exception(&mut self)
        ensures
            final(self).0 == return_from_exception_spec(old(self).0),
    {
        let sr = self.0;
        let mode = sr & 0x3f;
        let sr = sr & !0x3fu32;
        let sr = sr | (mode >> 2u32);
        *self = StatusRegister(sr);
    }
}

/// Returning from an exception undoes entering one: every bit of the status
/// register is restored except the topmost mode-stack entry (bits [5:4]),
/// which the push discarded and the pop leaves cleared.
pub proof fn lemma_return_reverses_enter(sr: u32)
    by (bit_vector)
    ensures
        return_from_exception_spec(enter_exception_spec(sr)) == sr & !0x30u32,
{
}

} // verus!

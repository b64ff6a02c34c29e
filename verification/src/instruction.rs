//! The 32-bit instruction word and accessors for each encoded field.
//!
//! Field extraction is written with division and modulus by powers of two
//! (equivalent to the usual shift-and-mask form) so that contracts stay in
//! plain integer arithmetic.

use vstd::prelude::*;

verus! {

/// Sign-extend the low 16 bits of `x` to a full 32-bit value.
pub open spec fn sign_extend16(x: u32) -> u32 {
    if x % 0x1_0000 < 0x8000 {
        x % 0x1_0000
    } else {
        (x % 0x1_0000 + 0xffff_0000) as u32
    }
}

/// A single 32-bit MIPS instruction word.
#[derive(Clone, Copy, PartialEq, Eq, Structural)]
pub struct Instruction(pub u32);

impl Instruction {
    /// Primary opcode: bits [31:26] of the instruction.
    pub open spec fn spec_function(self) -> u32 {
        self.0 / 0x400_0000
    }

    /// Subfunction: bits [5:0] of the instruction (used when the primary
    /// opcode is 0).
    pub open spec fn spec_subfunction(self) -> u32 {
        self.0 % 64
    }

    /// Coprocessor opcode: bits [25:21] of the instruction.
    pub open spec fn spec_cop_opcode(self) -> u32 {
        self.0 / 0x20_0000 % 32
    }

    /// Source register index: bits [25:21] of the instruction.
    pub open spec fn spec_s(self) -> u32 {
        self.0 / 0x20_0000 % 32
    }

    /// Target register index: bits [20:16] of the instruction.
    pub open spec fn spec_t(self) -> u32 {
        self.0 / 0x1_0000 % 32
    }

    /// Destination register index: bits [15:11] of the instruction.
    pub open spec fn spec_d(self) -> u32 {
        self.0 / 0x800 % 32
    }

    /// Immediate value in bits [15:0], zero-extended.
    pub open spec fn spec_imm(self) -> u32 {
        self.0 % 0x1_0000
    }

    /// Immediate value in bits [15:0], sign-extended to 32 bits.
    pub open spec fn spec_imm_se(self) -> u32 {
        sign_extend16(self.0)
    }

    /// Shift amount: bits [10:6] of the instruction.
    pub open spec fn spec_shift(self) -> u32 {
        self.0 / 64 % 32
    }

    /// Jump target: bits [25:0] of the instruction.
    pub open spec fn spec_imm_jump(self) -> u32 {
        self.0 % 0x400_0000
    }

    /// Primary opcode: bits [31:26] of the instruction.
    #[verifier::when_used_as_spec(spec_function)]
    pub fn function(self) -> (r: u32)
        ensures
            r == self.spec_function(),
            r < 64,
    {
        self.0 / 0x400_0000
    }

    /// Subfunction: bits [5:0] of the instruction (used when the primary
    /// opcode is 0).
    #[verifier::when_used_as_spec(spec_subfunction)]
    pub fn subfunction(self) -> (r: u32)
        ensures
            r == self.spec_subfunction(),
            r < 64,
    {
        self.0 % 64
    }

    /// Coprocessor opcode: bits [25:21] of the instruction.
    #[verifier::when_used_as_spec(spec_cop_opcode)]
    pub fn cop_opcode(self) -> (r: u32)
        ensures
            r == self.spec_cop_opcode(),
            r < 32,
    {
        self.0 / 0x20_0000 % 32
    }

    /// Source register index: bits [25:21] of the instruction.
    #[verifier::when_used_as_spec(spec_s)]
    pub fn s(self) -> (r: u32)
        ensures
            r == self.spec_s(),
            r < 32,
    {
        self.0 / 0x20_0000 % 32
    }

    /// Target register index: bits [20:16] of the instruction.
    #[verifier::when_used_as_spec(spec_t)]
    pub fn t(self) -> (r: u32)
        ensures
            r == self.spec_t(),
            r < 32,
    {
        self.0 / 0x1_0000 % 32
    }

    /// Destination register index: bits [15:11] of the instruction.
    #[verifier::when_used_as_spec(spec_d)]
    pub fn d(self) -> (r: u32)
        ensures
            r == self.spec_d(),
            r < 32,
    {
        self.0 / 0x800 % 32
    }

    /// Immediate value in bits [15:0], zero-extended.
    #[verifier::when_used_as_spec(spec_imm)]
    pub fn imm(self) -> (r: u32)
        ensures
            r == self.spec_imm(),
            r < 0x1_0000,
    {
        self.0 % 0x1_0000
    }

    /// Immediate value in bits [15:0], sign-extended to 32 bits.
    #[verifier::when_used_as_spec(spec_imm_se)]
    pub fn imm_se(self) -> (r: u32)
        ensures
            r == self.spec_imm_se(),
    {
        let low = self.0 % 0x1_0000;
        if low < 0x8000 {
            low
        } else {
            low + 0xffff_0000
        }
    }

    /// Shift amount: bits [10:6] of the instruction.
    #[verifier::when_used_as_spec(spec_shift)]
    pub fn shift(self) -> (r: u32)
        ensures
            r == self.spec_shift(),
            r < 32,
    {
        self.0 / 64 % 32
    }

    /// Jump target: bits [25:0] of the instruction.
    #[verifier::when_used_as_spec(spec_imm_jump)]
    pub fn imm_jump(self) -> (r: u32)
        ensures
            r == self.spec_imm_jump(),
            r < 0x400_0000,
    {
        self.0 % 0x400_0000
    }
}

} // verus!

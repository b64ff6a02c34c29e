//! Disassembler: a pure function from an instruction word to a
//! human-readable mnemonic, for logging. It covers the handful of
//! opcodes the logging cares about and prints a marker for the rest.

use vstd::prelude::*;
use crate::instruction::Instruction;

verus! {

/// The conventional name of general-purpose register `idx`.
pub open spec fn reg_name_spec(idx: u32) -> Seq<char> {
    if idx == 0 {
        "$zero"@
    } else if idx == 1 {
        "$at"@
    } else if idx == 2 {
        "$v0"@
    } else if idx == 3 {
        "$v1"@
    } else if idx == 4 {
        "$a0"@
    } else if idx == 5 {
        "$a1"@
    } else if idx == 6 {
        "$a2"@
    } else if idx == 7 {
        "$a3"@
    } else if idx == 8 {
        "$t0"@
    } else if idx == 9 {
        "$t1"@
    } else if idx == 10 {
        "$t2"@
    } else if idx == 11 {
        "$t3"@
    } else if idx == 12 {
        "$t4"@
    } else if idx == 13 {
        "$t5"@
    } else if idx == 14 {
        "$t6"@
    } else if idx == 15 {
        "$t7"@
    } else if idx == 16 {
        "$s0"@
    } else if idx == 17 {
        "$s1"@
    } else if idx == 18 {
        "$s2"@
    } else if idx == 19 {
        "$s3"@
    } else if idx == 20 {
        "$s4"@
    } else if idx == 21 {
        "$s5"@
    } else if idx == 22 {
        "$s6"@
    } else if idx == 23 {
        "$s7"@
    } else if idx == 24 {
        "$t8"@
    } else if idx == 25 {
        "$t9"@
    } else if idx == 26 {
        "$k0"@
    } else if idx == 27 {
        "$k1"@
    } else if idx == 28 {
        "$gp"@
    } else if idx == 29 {
        "$sp"@
    } else if idx == 30 {
        "$fp"@
    } else {
        "$ra"@
    }
}

/// The single lowercase hex digit for `n`.
pub open spec fn nibble_spec(n: u32) -> Seq<char> {
    if n % 16 == 0 {
        "0"@
    } else if n % 16 == 1 {
        "1"@
    } else if n % 16 == 2 {
        "2"@
    } else if n % 16 == 3 {
        "3"@
    } else if n % 16 == 4 {
        "4"@
    } else if n % 16 == 5 {
        "5"@
    } else if n % 16 == 6 {
        "6"@
    } else if n % 16 == 7 {
        "7"@
    } else if n % 16 == 8 {
        "8"@
    } else if n % 16 == 9 {
        "9"@
    } else if n % 16 == 10 {
        "a"@
    } else if n % 16 == 11 {
        "b"@
    } else if n % 16 == 12 {
        "c"@
    } else if n % 16 == 13 {
        "d"@
    } else if n % 16 == 14 {
        "e"@
    } else {
        "f"@
    }
}

/// `n` in lowercase hex without leading zeroes.
pub open spec fn hex_spec(n: u32) -> Seq<char>
    decreases n,
{
    if n < 16 {
        nibble_spec(n)
    } else {
        hex_spec(n / 16) + nibble_spec(n % 16)
    }
}

/// `w` as eight lowercase hex digits.
pub open spec fn hex8_spec(w: u32) -> Seq<char> {
    nibble_spec(w / 0x1000_0000) + nibble_spec(w / 0x100_0000 % 16) + nibble_spec(
        w / 0x10_0000 % 16,
    ) + nibble_spec(w / 0x1_0000 % 16) + nibble_spec(w / 0x1000 % 16) + nibble_spec(
        w / 0x100 % 16,
    ) + nibble_spec(w / 16 % 16) + nibble_spec(w % 16)
}

/// A shift amount or coprocessor register index, in decimal.
pub open spec fn dec_spec(n: u32) -> Seq<char> {
    if n < 10 {
        nibble_spec(n)
    } else {
        nibble_spec(n / 10) + nibble_spec(n % 10)
    }
}

/// The mnemonic each handled instruction decodes to, and an unknown
/// marker for the rest.
pub open spec fn decode_spec(instruction: Instruction) -> Seq<char> {
    let w = instruction.0;
    if instruction.spec_function() == 0b000000 {
        if instruction.spec_subfunction() == 0b000000 {
            "sll "@ + reg_name_spec(instruction.spec_d()) + ", "@ + reg_name_spec(
                instruction.spec_t(),
            ) + " << "@ + dec_spec(instruction.spec_shift())
        } else if instruction.spec_subfunction() == 0b100101 {
            "or "@ + reg_name_spec(instruction.spec_d()) + ", "@ + reg_name_spec(
                instruction.spec_s(),
            ) + ", "@ + reg_name_spec(instruction.spec_t())
        } else {
            "!UNKNOWN!"@
        }
    } else if instruction.spec_function() == 0b000010 {
        "J (PC & 0xf0000000) | "@ + hex_spec((instruction.spec_imm_jump() * 4) as u32)
    } else if instruction.spec_function() == 0b001001 {
        "addiu "@ + reg_name_spec(instruction.spec_t()) + ", "@ + reg_name_spec(
            instruction.spec_s(),
        ) + ", 0x"@ + hex_spec(instruction.spec_imm_se())
    } else if instruction.spec_function() == 0b001101 {
        "ori "@ + reg_name_spec(instruction.spec_t()) + ", "@ + reg_name_spec(
            instruction.spec_s(),
        ) + ", 0x"@ + hex_spec(instruction.spec_imm())
    } else if instruction.spec_function() == 0b001111 {
        "lui "@ + reg_name_spec(instruction.spec_t()) + ", 0x"@ + hex_spec(instruction.spec_imm())
    } else if instruction.spec_function() == 0b010000 {
        if instruction.spec_cop_opcode() == 0b00100 {
            "mtc0 "@ + reg_name_spec(instruction.spec_t()) + ", cop0_"@ + dec_spec(
                instruction.spec_d(),
            )
        } else {
            "!UNKNOWN cop0 instruction "@ + hex8_spec(w) + "!"@
        }
    } else if instruction.spec_function() == 0b101011 {
        "sw "@ + reg_name_spec(instruction.spec_t()) + ", ["@ + reg_name_spec(
            instruction.spec_s(),
        ) + " + 0x"@ + hex_spec(instruction.spec_imm()) + "]"@
    } else {
        "!UNKNOWN!"@
    }
}

/// The conventional name of general-purpose register `idx`.
fn reg(idx: u32) -> (r: &'static str)
    requires
        idx < 32,
    ensures
        r@ == reg_name_spec(idx),
{
    if idx == 0 {
        "$zero"
    } else if idx == 1 {
        "$at"
    } else if idx == 2 {
        "$v0"
    } else if idx == 3 {
        "$v1"
    } else if idx == 4 {
        "$a0"
    } else if idx == 5 {
        "$a1"
    } else if idx == 6 {
        "$a2"
    } else if idx == 7 {
        "$a3"
    } else if idx == 8 {
        "$t0"
    } else if idx == 9 {
        "$t1"
    } else if idx == 10 {
        "$t2"
    } else if idx == 11 {
        "$t3"
    } else if idx == 12 {
        "$t4"
    } else if idx == 13 {
        "$t5"
    } else if idx == 14 {
        "$t6"
    } else if idx == 15 {
        "$t7"
    } else if idx == 16 {
        "$s0"
    } else if idx == 17 {
        "$s1"
    } else if idx == 18 {
        "$s2"
    } else if idx == 19 {
        "$s3"
    } else if idx == 20 {
        "$s4"
    } else if idx == 21 {
        "$s5"
    } else if idx == 22 {
        "$s6"
    } else if idx == 23 {
        "$s7"
    } else if idx == 24 {
        "$t8"
    } else if idx == 25 {
        "$t9"
    } else if idx == 26 {
        "$k0"
    } else if idx == 27 {
        "$k1"
    } else if idx == 28 {
        "$gp"
    } else if idx == 29 {
        "$sp"
    } else if idx == 30 {
        "$fp"
    } else {
        "$ra"
    }
}

/// The single lowercase hex digit for `n % 16`.
fn nibble(n: u32) -> (r: &'static str)
    ensures
        r@ == nibble_spec(n),
{
    let k = n % 16;
    if k == 0 {
        "0"
    } else if k == 1 {
        "1"
    } else if k == 2 {
        "2"
    } else if k == 3 {
        "3"
    } else if k == 4 {
        "4"
    } else if k == 5 {
        "5"
    } else if k == 6 {
        "6"
    } else if k == 7 {
        "7"
    } else if k == 8 {
        "8"
    } else if k == 9 {
        "9"
    } else if k == 10 {
        "a"
    } else if k == 11 {
        "b"
    } else if k == 12 {
        "c"
    } else if k == 13 {
        "d"
    } else if k == 14 {
        "e"
    } else {
        "f"
    }
}

/// `n` in lowercase hex without leading zeroes.
fn hex(n: u32) -> (r: String)
    ensures
        r@ == hex_spec(n),
    decreases n,
{
    if n < 16 {
        String::from_str(nibble(n))
    } else {
        let mut s = hex(n / 16);
        s.append(nibble(n % 16));
        s
    }
}

/// `w` as eight lowercase hex digits.
fn hex8(w: u32) -> (r: String)
    ensures
        r@ == hex8_spec(w),
{
    let mut s = String::from_str(nibble(w / 0x1000_0000));
    s.append(nibble(w / 0x100_0000 % 16));
    s.append(nibble(w / 0x10_0000 % 16));
    s.append(nibble(w / 0x1_0000 % 16));
    s.append(nibble(w / 0x1000 % 16));
    s.append(nibble(w / 0x100 % 16));
    s.append(nibble(w / 16 % 16));
    s.append(nibble(w % 16));
    s
}

/// A shift amount or coprocessor register index, in decimal.
fn dec(n: u32) -> (r: String)
    requires
        n < 32,
    ensures
        r@ == dec_spec(n),
{
    if n < 10 {
        String::from_str(nibble(n))
    } else {
        let mut s = String::from_str(nibble(n / 10));
        s.append(nibble(n % 10));
        s
    }
}

/// Decode `instruction` into a human-readable mnemonic.
pub fn decode(instruction: Instruction) -> (r: String)
    ensures
        r@ == decode_spec(instruction),
{
    let function = instruction.function();
    if function == 0b000000 {
        let sub = instruction.subfunction();
        if sub == 0b000000 {
            op_sll(instruction)
        } else if sub == 0b100101 {
            op_or(instruction)
        } else {
            String::from_str("!UNKNOWN!")
        }
    } else if function == 0b000010 {
        op_j(instruction)
    } else if function == 0b001001 {
        op_addiu(instruction)
    } else if function == 0b001101 {
        op_ori(instruction)
    } else if function == 0b001111 {
        op_lui(instruction)
    } else if function == 0b010000 {
        op_cop0(instruction)
    } else if function == 0b101011 {
        op_sw(instruction)
    } else {
        String::from_str("!UNKNOWN!")
    }
}

fn op_sll(instruction: Instruction) -> (r: String)
    ensures
        r@ == "sll "@ + reg_name_spec(instruction.spec_d()) + ", "@ + reg_name_spec(
            instruction.spec_t(),
        ) + " << "@ + dec_spec(instruction.spec_shift()),
{
    let mut s = String::from_str("sll ");
    s.append(reg(instruction.d()));
    s.append(", ");
    s.append(reg(instruction.t()));
    s.append(" << ");
    let i = dec(instruction.shift());
    s.append(i.as_str());
    s
}

fn op_or(instruction: Instruction) -> (r: String)
    ensures
        r@ == "or "@ + reg_name_spec(instruction.spec_d()) + ", "@ + reg_name_spec(
            instruction.spec_s(),
        ) + ", "@ + reg_name_spec(instruction.spec_t()),
{
    let mut s = String::from_str("or ");
    s.append(reg(instruction.d()));
    s.append(", ");
    s.append(reg(instruction.s()));
    s.append(", ");
    s.append(reg(instruction.t()));
    s
}

fn op_j(instruction: Instruction) -> (r: String)
    ensures
        r@ == "J (PC & 0xf0000000) | "@ + hex_spec((instruction.spec_imm_jump() * 4) as u32),
{
    let mut s = String::from_str("J (PC & 0xf0000000) | ");
    let target = hex(instruction.imm_jump() * 4);
    s.append(target.as_str());
    s
}

fn op_addiu(instruction: Instruction) -> (r: String)
    ensures
        r@ == "addiu "@ + reg_name_spec(instruction.spec_t()) + ", "@ + reg_name_spec(
            instruction.spec_s(),
        ) + ", 0x"@ + hex_spec(instruction.spec_imm_se()),
{
    let mut s = String::from_str("addiu ");
    s.append(reg(instruction.t()));
    s.append(", ");
    s.append(reg(instruction.s()));
    s.append(", 0x");
    let i = hex(instruction.imm_se());
    s.append(i.as_str());
    s
}

fn op_ori(instruction: Instruction) -> (r: String)
    ensures
        r@ == "ori "@ + reg_name_spec(instruction.spec_t()) + ", "@ + reg_name_spec(
            instruction.spec_s(),
        ) + ", 0x"@ + hex_spec(instruction.spec_imm()),
{
    let mut s = String::from_str("ori ");
    s.append(reg(instruction.t()));
    s.append(", ");
    s.append(reg(instruction.s()));
    s.append(", 0x");
    let i = hex(instruction.imm());
    s.append(i.as_str());
    s
}

fn op_lui(instruction: Instruction) -> (r: String)
    ensures
        r@ == "lui "@ + reg_name_spec(instruction.spec_t()) + ", 0x"@ + hex_spec(
            instruction.spec_imm(),
        ),
{
    let mut s = String::from_str("lui ");
    s.append(reg(instruction.t()));
    s.append(", 0x");
    let i = hex(instruction.imm());
    s.append(i.as_str());
    s
}

fn op_cop0(instruction: Instruction) -> (r: String)
    ensures
        r@ == if instruction.spec_cop_opcode() == 0b00100 {
            "mtc0 "@ + reg_name_spec(instruction.spec_t()) + ", cop0_"@ + dec_spec(
                instruction.spec_d(),
            )
        } else {
            "!UNKNOWN cop0 instruction "@ + hex8_spec(instruction.0) + "!"@
        },
{
    if instruction.cop_opcode() == 0b00100 {
        op_mtc0(instruction)
    } else {
        let mut s = String::from_str("!UNKNOWN cop0 instruction ");
        let word = hex8(instruction.0);
        s.append(word.as_str());
        s.append("!");
        s
    }
}

fn op_mtc0(instruction: Instruction) -> (r: String)
    ensures
        r@ == "mtc0 "@ + reg_name_spec(instruction.spec_t()) + ", cop0_"@ + dec_spec(
            instruction.spec_d(),
        ),
{
    let mut s = String::from_str("mtc0 ");
    s.append(reg(instruction.t()));
    s.append(", cop0_");
    let d = dec(instruction.d());
    s.append(d.as_str());
    s
}

fn op_sw(instruction: Instruction) -> (r: String)
    ensures
        r@ == "sw "@ + reg_name_spec(instruction.spec_t()) + ", ["@ + reg_name_spec(
            instruction.spec_s(),
        ) + " + 0x"@ + hex_spec(instruction.spec_imm()) + "]"@,
{
    let mut s = String::from_str("sw ");
    s.append(reg(instruction.t()));
    s.append(", [");
    s.append(reg(instruction.s()));
    s.append(" + 0x");
    let i = hex(instruction.imm());
    s.append(i.as_str());
    s.append("]");
    s
}

} // verus!

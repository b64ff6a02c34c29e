//! The CPU core: registers, the program-counter pair, HI/LO, coprocessor-0
//! state, the pending-load slot, the branch/delay flags, the instruction
//! cache, and the dispatch of every opcode.

use vstd::prelude::*;
use crate::bus::{CacheControl, Interconnect, InterView, RAM_SIZE};
use crate::bus::{byte_at, half_at, store_byte, store_half, store_word, word_at};
use crate::icache::{ICacheLine, LineView, lemma_invalidate, lemma_set_tag_valid};
use crate::icache::{tag_spec, valid_index_spec};
use crate::instruction::{Instruction, sign_extend16};
use crate::status::{StatusRegister, cache_isolated_spec, enter_exception_spec};
use crate::status::{exception_handler_spec, return_from_exception_spec};
use crate::timekeeper::TimeKeeper;

verus! {

/// Wrapping 32-bit addition.
pub open spec fn add32(a: u32, b: u32) -> u32 {
    vstd::wrapping::u32_specs::wrapping_add(a, b)
}

/// Wrapping 32-bit subtraction.
pub open spec fn sub32(a: u32, b: u32) -> u32 {
    vstd::wrapping::u32_specs::wrapping_sub(a, b)
}

/// Architectural faults, surfaced to the emulated CPU through the
/// exception vector. The value of each is the code stored in bits [6:2]
/// of the Cause register.
#[derive(Clone, Copy, PartialEq, Eq, Structural)]
pub enum Exception {
    /// Address error on a load or on an instruction fetch.
    LoadAddressError,
    /// Address error on a store.
    StoreAddressError,
    /// The SYSCALL opcode.
    SysCall,
    /// The BREAK opcode.
    Break,
    /// An opcode the CPU does not recognise.
    IllegalInstruction,
    /// An operation for a coprocessor that cannot be used.
    CoprocessorError,
    /// Signed arithmetic overflow.
    Overflow,
}

/// The exception code stored in bits [6:2] of the Cause register.
pub open spec fn exception_code(e: Exception) -> u32 {
    match e {
        Exception::LoadAddressError => 0x4,
        Exception::StoreAddressError => 0x5,
        Exception::SysCall => 0x8,
        Exception::Break => 0x9,
        Exception::IllegalInstruction => 0xa,
        Exception::CoprocessorError => 0xb,
        Exception::Overflow => 0xc,
    }
}

impl Exception {
    /// The code stored in bits [6:2] of the Cause register.
    pub fn code(self) -> (r: u32)
        ensures
            r == exception_code(self),
    {
        match self {
            Exception::LoadAddressError => 0x4,
            Exception::StoreAddressError => 0x5,
            Exception::SysCall => 0x8,
            Exception::Break => 0x9,
            Exception::IllegalInstruction => 0xa,
            Exception::CoprocessorError => 0xb,
            Exception::Overflow => 0xc,
        }
    }
}

/// Host-level aborts: emulator bugs or features the core does not support.
/// These never reach the emulated program; the caller is expected to stop
/// loudly, quoting the offending word.
#[derive(Clone, Copy, PartialEq, Eq, Structural, Debug)]
pub enum Fatal {
    /// A coprocessor-0 sub-opcode the core does not handle; holds the
    /// instruction word.
    UnhandledCop0Instruction(u32),
    /// A read from an unhandled coprocessor-0 register; holds the register
    /// index.
    UnhandledCop0Read(u32),
    /// A write of a non-zero value to a breakpoint or Cause register, or a
    /// write to an unhandled coprocessor-0 register; holds the register
    /// index and the value.
    UnhandledCop0Write(u32, u32),
    /// A coprocessor-0 encoding that is not RFE in its low six bits; holds
    /// the instruction word.
    InvalidCop0Encoding(u32),
    /// A Geometry Transformation Engine operation; holds the instruction
    /// word.
    GteInstruction(u32),
    /// A load word to the Geometry Transformation Engine; holds the
    /// instruction word.
    GteLoad(u32),
    /// A store word from the Geometry Transformation Engine; holds the
    /// instruction word.
    GteStore(u32),
    /// Cache maintenance attempted while the instruction cache is
    /// disabled.
    CacheMaintenanceWhileDisabled,
    /// A store during cache isolation that is not a 32-bit write of zero;
    /// holds the value.
    UnsupportedIsolatedStore(u32),
}

/// Debugger hooks, called synchronously before each fetch and around each
/// data access. The unit type is the no-op debugger.
pub trait Debugger {
    /// Called at the top of each step with the address of the instruction
    /// about to execute.
    fn pc_change(&mut self, pc: u32);

    /// Called before each data load with the address read.
    fn memory_read(&mut self, addr: u32);

    /// Called before each data store with the address written.
    fn memory_write(&mut self, addr: u32);
}

impl Debugger for () {
    fn pc_change(&mut self, pc: u32) {
    }

    fn memory_read(&mut self, addr: u32) {
    }

    fn memory_write(&mut self, addr: u32) {
    }
}

/// The whole architectural state of the core, as plain values.
#[verifier::ext_equal]
pub ghost struct CpuView {
    /// Cycle bookkeeping.
    pub tk: TimeKeeper,
    /// Address of the next instruction to fetch.
    pub pc: u32,
    /// Address of the instruction after that; branches redirect it.
    pub next_pc: u32,
    /// Address of the instruction being executed, for EPC.
    pub current_pc: u32,
    /// The architectural general-purpose registers.
    pub regs: Seq<u32>,
    /// The output registers of the current instruction; committed into
    /// `regs` at the end of each step.
    pub out_regs: Seq<u32>,
    /// Multiply/divide high result and division remainder.
    pub hi: u32,
    /// Multiply/divide low result and division quotient.
    pub lo: u32,
    /// The 256 instruction cache lines.
    pub icache: Seq<LineView>,
    /// The memory interface.
    pub inter: InterView,
    /// Coprocessor-0 register 12: the status register.
    pub sr: u32,
    /// Coprocessor-0 register 13: the cause register.
    pub cause: u32,
    /// Coprocessor-0 register 14: the exception program counter.
    pub epc: u32,
    /// The pending load: target register and value. Target 0 means no
    /// pending load.
    pub load: (u32, u32),
    /// Set by a taken branch or jump in the current instruction.
    pub branch: bool,
    /// Set while the current instruction executes in a branch delay slot.
    pub delay_slot: bool,
    /// Geometry Transformation Engine data registers, moved to and from
    /// raw.
    pub gte_data: Seq<u32>,
    /// Geometry Transformation Engine control registers, moved to and
    /// from raw.
    pub gte_control: Seq<u32>,
}

/// `regs` with register `i` replaced by `v` and register 0 forced back to
/// zero.
pub open spec fn with_reg(regs: Seq<u32>, i: int, v: u32) -> Seq<u32> {
    regs.update(i, v).update(0, 0)
}

/// The state after the current instruction writes `val` to output
/// register `d`.
pub open spec fn v_set_reg(v: CpuView, d: u32, val: u32) -> CpuView {
    CpuView { out_regs: with_reg(v.out_regs, d as int, val), ..v }
}

/// The state after the pending load lands in the output registers: the
/// instruction in the load delay slot has read its operands from the
/// architectural bank, so the value becomes visible only to the
/// instruction after it. With no pending load this writes register 0,
/// which is a no-op.
pub open spec fn v_land(v: CpuView) -> CpuView {
    CpuView { out_regs: with_reg(v.out_regs, v.load.0 as int, v.load.1), load: (0u32, 0u32), ..v }
}

/// The state after a load instruction stages `val` for register `t`: a
/// pending load of any other register lands first, but a pending load of
/// the same register is silently cancelled — only the newer value is
/// ever observed.
pub open spec fn v_chain_load(v: CpuView, t: u32, val: u32) -> CpuView {
    if v.load.0 == t {
        CpuView { load: (t, val), ..v }
    } else {
        CpuView { load: (t, val), ..v_land(v) }
    }
}

/// The state after a taken branch by immediate `offset` (in words):
/// only `next_pc` moves, and the next instruction becomes a delay slot.
pub open spec fn v_take_branch(v: CpuView, offset: u32) -> CpuView {
    CpuView { next_pc: add32(v.pc, offset << 2u32), branch: true, ..v }
}

/// The KSEG1 window at `0xa000_0000` (the top three address bits are
/// `101`) is never cached.
pub open spec fn kseg1(pc: u32) -> bool {
    pc / 0x2000_0000 == 5
}

/// Bit 11 of the cache control register enables the instruction cache.
pub open spec fn icache_enabled_spec(cc: u32) -> bool {
    cc / 0x800 % 2 == 1
}

/// An instruction fetch at `pc` hits `line` when the tag matches and the
/// addressed word is at or past the line's first valid word.
pub open spec fn fetch_hit(line: LineView, pc: u32) -> bool {
    tag_spec(line.tag_valid) == pc & 0xffff_f000 && valid_index_spec(line.tag_valid) <= pc / 4 % 4
}

/// `tk` advanced by `n` cycles.
pub open spec fn ticked(tk: TimeKeeper, n: u64) -> TimeKeeper {
    TimeKeeper { now: (tk.now + n) as u64, ..tk }
}

/// The cache line after a refill triggered by a miss at `pc`: the words
/// from `pc`'s position to the end of the line are loaded from memory,
/// the earlier words stay stale and marked invalid by the first-valid
/// index, and the tag is set.
pub open spec fn refilled_line(line: LineView, ram: Seq<u8>, pc: u32) -> LineView {
    LineView {
        tag_valid: pc & 0xffff_f00c,
        words: Seq::new(
            4,
            |j: int|
                if j < pc / 4 % 4 {
                    line.words[j]
                } else {
                    word_at(ram, (pc / 16 * 16 + 4 * j) as u32)
                },
        ),
    }
}

/// The value a debugger's side-effect-free memory read returns: the
/// memory contents at `addr` of the given width, zero-extended.
pub open spec fn examine_spec(v: CpuView, width: AccessWidth, addr: u32) -> u32 {
    match width {
        AccessWidth::Byte => byte_at(v.inter.ram, addr) as u32,
        AccessWidth::HalfWord => half_at(v.inter.ram, (addr / 2 * 2) as u32),
        AccessWidth::Word => word_at(v.inter.ram, (addr / 4 * 4) as u32),
    }
}

/// What one instruction fetch at `v.current_pc` does: the state after it
/// (cycles charged, cache possibly refilled) and the instruction word
/// served. KSEG1 fetches and fetches with the cache disabled read
/// memory directly for 4 cycles; a hit serves the cached word (even if
/// stale) for free; a miss pays 3 cycles plus one per word and refills
/// the line from the missed word to its end.
pub open spec fn fetch_spec(v: CpuView) -> (CpuView, u32) {
    let pc = v.current_pc;
    let line_idx = (pc / 16 % 256) as int;
    if kseg1(pc) || !icache_enabled_spec(v.inter.cache_control) {
        (CpuView { tk: ticked(v.tk, 4), ..v }, word_at(v.inter.ram, pc))
    } else if fetch_hit(v.icache[line_idx], pc) {
        (v, v.icache[line_idx].words[(pc / 4 % 4) as int])
    } else {
        (
            CpuView {
                tk: ticked(v.tk, (7 - pc / 4 % 4) as u64),
                icache: v.icache.update(
                    line_idx,
                    refilled_line(v.icache[line_idx], v.inter.ram, pc),
                ),
                ..v
            },
            word_at(v.inter.ram, pc),
        )
    }
}

/// The state after entering the exception handler with code `code`: the
/// mode stack is pushed, Cause holds the code (plus bit 31 inside a delay
/// slot), EPC holds the faulting address (rewound by one word inside a
/// delay slot), and both program counters jump to the handler with no
/// delay slot.
pub open spec fn v_exception(v: CpuView, code: u32) -> CpuView {
    let handler = exception_handler_spec(enter_exception_spec(v.sr));
    CpuView {
        sr: enter_exception_spec(v.sr),
        cause: if v.delay_slot {
            (code * 4 + 0x8000_0000) as u32
        } else {
            (code * 4) as u32
        },
        epc: if v.delay_slot {
            sub32(v.current_pc, 4)
        } else {
            v.current_pc
        },
        pc: handler,
        next_pc: add32(handler, 4),
        ..v
    }
}

/// The signed sum of two register values overflows 32 bits.
pub open spec fn add_overflows(x: u32, y: u32) -> bool {
    (x as i32) + (y as i32) > i32::MAX || (x as i32) + (y as i32) < i32::MIN
}

/// The signed difference of two register values overflows 32 bits.
pub open spec fn sub_overflows(x: u32, y: u32) -> bool {
    (x as i32) - (y as i32) > i32::MAX || (x as i32) - (y as i32) < i32::MIN
}

/// The signed sum of two register values, assuming it fits.
pub open spec fn add_signed(x: u32, y: u32) -> u32 {
    ((x as i32) + (y as i32)) as u32
}

/// The signed difference of two register values, assuming it fits.
pub open spec fn sub_signed(x: u32, y: u32) -> u32 {
    ((x as i32) - (y as i32)) as u32
}

/// Arithmetic (sign-preserving) right shift of a register value.
pub open spec fn sra32(x: u32, sh: u32) -> u32 {
    ((x as i32) >> sh) as u32
}

/// Signed comparison of two register values.
pub open spec fn lt_signed(x: u32, y: u32) -> bool {
    (x as i32) < (y as i32)
}

/// The 64-bit signed product of two register values.
pub open spec fn mult_product(x: u32, y: u32) -> u64 {
    ((x as i32 as i64) * (y as i32 as i64)) as u64
}

/// The 64-bit unsigned product of two register values.
pub open spec fn multu_product(x: u32, y: u32) -> u64 {
    ((x as u64) * (y as u64)) as u64
}

/// Signed division truncated toward zero, written the way the hardware
/// divider computes it: on magnitudes, then signed.
pub open spec fn div_trunc(x: int, d: int) -> int {
    if x == 0 {
        0
    } else if x > 0 && d > 0 {
        x / d
    } else if x < 0 && d < 0 {
        (x * -1) / (d * -1)
    } else if x < 0 {
        ((x * -1) / d) * -1
    } else {
        (x / (d * -1)) * -1
    }
}

/// Signed remainder truncated toward zero: it carries the dividend's sign.
pub open spec fn rem_trunc(x: int, d: int) -> int {
    if x == 0 {
        0
    } else if x > 0 && d > 0 {
        x % d
    } else if x < 0 && d < 0 {
        ((x * -1) % (d * -1)) * -1
    } else if x < 0 {
        ((x * -1) % d) * -1
    } else {
        x % (d * -1)
    }
}

/// HI after a signed division: the remainder, or the dividend when
/// dividing by zero, or 0 in the one unrepresentable case.
pub open spec fn div_hi(ns: u32, ds: u32) -> u32 {
    let n = ns as i32;
    let d = ds as i32;
    if d == 0 {
        ns
    } else if ns == 0x8000_0000 && d == -1 {
        0
    } else {
        (rem_trunc(n as int, d as int) as i32) as u32
    }
}

/// LO after a signed division: the quotient, or a bogus all-ones/one on
/// division by zero, or the unrepresentable quotient wrapped.
pub open spec fn div_lo(ns: u32, ds: u32) -> u32 {
    let n = ns as i32;
    let d = ds as i32;
    if d == 0 {
        if n >= 0 {
            0xffff_ffffu32
        } else {
            1u32
        }
    } else if ns == 0x8000_0000 && d == -1 {
        0x8000_0000u32
    } else {
        (div_trunc(n as int, d as int) as i32) as u32
    }
}

/// Outside the two special-cased inputs, the truncated quotient and
/// remainder of two signed 32-bit values fit in 32 bits.
proof fn lemma_trunc_div_bounds(n: i32, d: i32)
    by (nonlinear_arith)
    requires
        d != 0,
        !(n == i32::MIN && d == -1),
    ensures
        i32::MIN <= div_trunc(n as int, d as int) <= i32::MAX,
        i32::MIN <= rem_trunc(n as int, d as int) <= i32::MAX,
{
}

/// A register value reads as the smallest signed 32-bit integer exactly
/// when its unsigned bit pattern is `0x8000_0000`.
proof fn lemma_min_pattern(ns: u32)
    by (bit_vector)
    ensures
        (ns as i32 == i32::MIN) <==> ns == 0x8000_0000,
{
}

/// The target of a J or JAL: the jump immediate pasted into the current
/// 256 MiB segment.
pub open spec fn jump_target(pc: u32, target: u32) -> u32 {
    (pc / 0x1000_0000 * 0x1000_0000 + target * 4) as u32
}

/// Bit 16 of a BxxZ instruction selects "greater than or equal to zero"
/// over "less than zero".
pub open spec fn bxx_is_bgez(w: u32) -> bool {
    w / 0x1_0000 % 2 == 1
}

/// Bit 20 of a BxxZ instruction makes it a linking branch.
pub open spec fn bxx_is_link(w: u32) -> bool {
    w / 0x10_0000 % 2 == 1
}

/// Whether a BxxZ branch on register value `v` is taken.
pub open spec fn bxx_taken(w: u32, v: u32) -> bool {
    ((v as i32) < 0) != bxx_is_bgez(w)
}

/// The width of a data memory access.
#[derive(Clone, Copy, PartialEq, Eq, Structural)]
pub enum AccessWidth {
    /// An 8-bit access.
    Byte,
    /// A 16-bit access.
    HalfWord,
    /// A 32-bit access.
    Word,
}

/// Sign-extend a byte to a full 32-bit value.
pub open spec fn sign_extend8(b: u8) -> u32 {
    if b < 0x80 {
        b as u32
    } else {
        (b as u32 + 0xffff_ff00) as u32
    }
}

/// The register value produced by LWL: the loaded aligned word supplies
/// the `k + 1` most significant bytes, the current register value keeps
/// the rest.
pub open spec fn lwl_merge(cur: u32, word: u32, k: u32) -> u32 {
    if k % 4 == 0 {
        (cur & 0x00ff_ffff) | (word << 24u32)
    } else if k % 4 == 1 {
        (cur & 0x0000_ffff) | (word << 16u32)
    } else if k % 4 == 2 {
        (cur & 0x0000_00ff) | (word << 8u32)
    } else {
        word
    }
}

/// The register value produced by LWR: the loaded aligned word supplies
/// the `4 - k` least significant bytes, the current register value keeps
/// the rest.
pub open spec fn lwr_merge(cur: u32, word: u32, k: u32) -> u32 {
    if k % 4 == 0 {
        word
    } else if k % 4 == 1 {
        (cur & 0xff00_0000) | (word >> 8u32)
    } else if k % 4 == 2 {
        (cur & 0xffff_0000) | (word >> 16u32)
    } else {
        (cur & 0xffff_ff00) | (word >> 24u32)
    }
}

/// The memory word produced by SWL: the register supplies the `k + 1`
/// most significant bytes of itself into the low bytes of the word.
pub open spec fn swl_merge(mem: u32, v: u32, k: u32) -> u32 {
    if k % 4 == 0 {
        (mem & 0xffff_ff00) | (v >> 24u32)
    } else if k % 4 == 1 {
        (mem & 0xffff_0000) | (v >> 16u32)
    } else if k % 4 == 2 {
        (mem & 0xff00_0000) | (v >> 8u32)
    } else {
        v
    }
}

/// The memory word produced by SWR: the register supplies its `4 - k`
/// least significant bytes into the high bytes of the word.
pub open spec fn swr_merge(mem: u32, v: u32, k: u32) -> u32 {
    if k % 4 == 0 {
        v
    } else if k % 4 == 1 {
        (mem & 0x0000_00ff) | (v << 8u32)
    } else if k % 4 == 2 {
        (mem & 0x0000_ffff) | (v << 16u32)
    } else {
        (mem & 0x00ff_ffff) | (v << 24u32)
    }
}

/// The state after a successful cache-maintenance write: in tag-test mode
/// the addressed line is invalidated whole; otherwise the write lands in
/// the addressed word of the line.
pub open spec fn v_cache_maintenance(v: CpuView, addr: u32, val: u32) -> CpuView {
    let line_idx = addr / 16 % 256;
    let line = v.icache[line_idx as int];
    let new_line = if v.inter.cache_control / 4 % 2 == 1 {
        LineView { tag_valid: line.tag_valid | 0x10, ..line }
    } else {
        LineView { words: line.words.update((addr / 4 % 4) as int, val), ..line }
    };
    CpuView { icache: v.icache.update(line_idx as int, new_line), ..v }
}

/// Whether a cache-maintenance write of `val` with width `width`
/// succeeds, and with what fault: only 32-bit writes of zero are
/// supported, and only while the instruction cache is enabled.
pub open spec fn cache_maintenance_result(v: CpuView, val: u32, width: AccessWidth) -> Result<
    (),
    Fatal,
> {
    if v.inter.cache_control / 0x800 % 2 != 1 {
        Err(Fatal::CacheMaintenanceWhileDisabled)
    } else if width != AccessWidth::Word || val != 0 {
        Err(Fatal::UnsupportedIsolatedStore(val))
    } else {
        Ok(())
    }
}

/// Whether a store of `val` with width `width` at `addr` succeeds, and
/// with what fault, given the cache-isolation state.
pub open spec fn store_result(v: CpuView, val: u32, width: AccessWidth) -> Result<(), Fatal> {
    if cache_isolated_spec(v.sr) {
        cache_maintenance_result(v, val, width)
    } else {
        Ok(())
    }
}

/// The state after a store of `val` with width `width` at `addr`: during
/// cache isolation the store is diverted into cache maintenance (touching
/// nothing on a fault), otherwise it reaches RAM.
pub open spec fn v_store(v: CpuView, addr: u32, val: u32, width: AccessWidth) -> CpuView {
    if cache_isolated_spec(v.sr) {
        if store_result(v, val, width) is Ok {
            v_cache_maintenance(v, addr, val)
        } else {
            v
        }
    } else {
        let ram = if width == AccessWidth::Byte {
            store_byte(v.inter.ram, addr, (val % 0x100) as u8)
        } else if width == AccessWidth::HalfWord {
            store_half(v.inter.ram, (addr / 2 * 2) as u32, val)
        } else {
            store_word(v.inter.ram, (addr / 4 * 4) as u32, val)
        };
        CpuView { inter: InterView { ram, ..v.inter }, ..v }
    }
}

/// What MFC0, MTC0 and RFE do, and which other coprocessor-0 encodings
/// are unimplemented host aborts.
pub open spec fn cop0_spec(v: CpuView, i: Instruction) -> (CpuView, Result<(), Fatal>) {
    let op = i.cop_opcode();
    let cop_r = i.d();
    let val = v.regs[i.t() as int];
    if op == 0b00000 {
        if cop_r == 12 {
            (v_chain_load(v, i.t(), v.sr), Ok(()))
        } else if cop_r == 13 {
            (v_chain_load(v, i.t(), v.cause), Ok(()))
        } else if cop_r == 14 {
            (v_chain_load(v, i.t(), v.epc), Ok(()))
        } else if cop_r == 15 {
            (v_chain_load(v, i.t(), 2), Ok(()))
        } else {
            (v, Err(Fatal::UnhandledCop0Read(cop_r)))
        }
    } else if op == 0b00100 {
        if cop_r == 3 || cop_r == 5 || cop_r == 6 || cop_r == 7 || cop_r == 9 || cop_r == 11
            || cop_r == 13 {
            if val == 0 {
                (v_land(v), Ok(()))
            } else {
                (v_land(v), Err(Fatal::UnhandledCop0Write(cop_r, val)))
            }
        } else if cop_r == 12 {
            (CpuView { sr: val, ..v_land(v) }, Ok(()))
        } else {
            (v_land(v), Err(Fatal::UnhandledCop0Write(cop_r, val)))
        }
    } else if op == 0b10000 {
        if i.0 % 64 == 0b010000 {
            (CpuView { sr: return_from_exception_spec(v.sr), ..v_land(v) }, Ok(()))
        } else {
            (v, Err(Fatal::InvalidCop0Encoding(i.0)))
        }
    } else {
        (v, Err(Fatal::UnhandledCop0Instruction(i.0)))
    }
}

/// What the coprocessor-2 move encodings do, and that actual geometry
/// commands are unimplemented host aborts.
pub open spec fn cop2_spec(v: CpuView, i: Instruction) -> (CpuView, Result<(), Fatal>) {
    let op = i.cop_opcode();
    let cop_r = i.d() as int;
    if op >= 0x10 {
        (v, Err(Fatal::GteInstruction(i.0)))
    } else if op == 0b00000 {
        (v_chain_load(v, i.t(), v.gte_data[cop_r]), Ok(()))
    } else if op == 0b00010 {
        (v_chain_load(v, i.t(), v.gte_control[cop_r]), Ok(()))
    } else if op == 0b00100 {
        (CpuView { gte_data: v.gte_data.update(cop_r, v.regs[i.t() as int]), ..v_land(v) }, Ok(()))
    } else if op == 0b00110 {
        (
            CpuView { gte_control: v.gte_control.update(cop_r, v.regs[i.t() as int]), ..v_land(v) },
            Ok(()),
        )
    } else {
        (v, Err(Fatal::GteInstruction(i.0)))
    }
}

/// What the register-to-register encodings under primary opcode 0 do.
pub open spec fn special_spec(v: CpuView, i: Instruction) -> (CpuView, Result<(), Fatal>) {
    let rs = v.regs[i.s() as int];
    let rt = v.regs[i.t() as int];
    {
        let sub = i.subfunction();
        if sub == 0b000000 {
            (v_set_reg(v_land(v), i.d(), rt << i.shift()), Ok(()))
        } else if sub == 0b000010 {
            (v_set_reg(v_land(v), i.d(), rt >> i.shift()), Ok(()))
        } else if sub == 0b000011 {
            (v_set_reg(v_land(v), i.d(), sra32(rt, i.shift())), Ok(()))
        } else if sub == 0b000100 {
            (v_set_reg(v_land(v), i.d(), rt << (rs % 32)), Ok(()))
        } else if sub == 0b000110 {
            (v_set_reg(v_land(v), i.d(), rt >> (rs % 32)), Ok(()))
        } else if sub == 0b000111 {
            (v_set_reg(v_land(v), i.d(), sra32(rt, rs % 32)), Ok(()))
        } else if sub == 0b001000 {
            (CpuView { next_pc: rs, branch: true, ..v_land(v) }, Ok(()))
        } else if sub == 0b001001 {
            (
                CpuView { next_pc: rs, branch: true, ..v_set_reg(v_land(v), i.d(), v.next_pc) },
                Ok(()),
            )
        } else if sub == 0b001100 {
            (v_exception(v_land(v), exception_code(Exception::SysCall)), Ok(()))
        } else if sub == 0b001101 {
            (v_exception(v_land(v), exception_code(Exception::Break)), Ok(()))
        } else if sub == 0b010000 {
            (v_set_reg(v_land(v), i.d(), v.hi), Ok(()))
        } else if sub == 0b010001 {
            (CpuView { hi: rs, ..v_land(v) }, Ok(()))
        } else if sub == 0b010010 {
            (v_set_reg(v_land(v), i.d(), v.lo), Ok(()))
        } else if sub == 0b010011 {
            (CpuView { lo: rs, ..v_land(v) }, Ok(()))
        } else if sub == 0b011000 {
            (
                CpuView {
                    hi: (mult_product(rs, rt) >> 32u32) as u32,
                    lo: mult_product(rs, rt) as u32,
                    ..v_land(v)
                },
                Ok(()),
            )
        } else if sub == 0b011001 {
            (
                CpuView {
                    hi: (multu_product(rs, rt) >> 32u32) as u32,
                    lo: multu_product(rs, rt) as u32,
                    ..v_land(v)
                },
                Ok(()),
            )
        } else if sub == 0b011010 {
            (CpuView { hi: div_hi(rs, rt), lo: div_lo(rs, rt), ..v_land(v) }, Ok(()))
        } else if sub == 0b011011 {
            if rt == 0 {
                (CpuView { hi: rs, lo: 0xffff_ffffu32, ..v_land(v) }, Ok(()))
            } else {
                (CpuView { hi: (rs % rt) as u32, lo: (rs / rt) as u32, ..v_land(v) }, Ok(()))
            }
        } else if sub == 0b100000 {
            if add_overflows(rs, rt) {
                (v_exception(v_land(v), exception_code(Exception::Overflow)), Ok(()))
            } else {
                (v_set_reg(v_land(v), i.d(), add_signed(rs, rt)), Ok(()))
            }
        } else if sub == 0b100001 {
            (v_set_reg(v_land(v), i.d(), add32(rs, rt)), Ok(()))
        } else if sub == 0b100010 {
            if sub_overflows(rs, rt) {
                (v_exception(v_land(v), exception_code(Exception::Overflow)), Ok(()))
            } else {
                (v_set_reg(v_land(v), i.d(), sub_signed(rs, rt)), Ok(()))
            }
        } else if sub == 0b100011 {
            (v_set_reg(v_land(v), i.d(), sub32(rs, rt)), Ok(()))
        } else if sub == 0b100100 {
            (v_set_reg(v_land(v), i.d(), rs & rt), Ok(()))
        } else if sub == 0b100101 {
            (v_set_reg(v_land(v), i.d(), rs | rt), Ok(()))
        } else if sub == 0b100110 {
            (v_set_reg(v_land(v), i.d(), rs ^ rt), Ok(()))
        } else if sub == 0b100111 {
            (v_set_reg(v_land(v), i.d(), !(rs | rt)), Ok(()))
        } else if sub == 0b101010 {
            (
                v_set_reg(
                    v_land(v),
                    i.d(),
                    if lt_signed(rs, rt) {
                        1u32
                    } else {
                        0u32
                    },
                ),
                Ok(()),
            )
        } else if sub == 0b101011 {
            (
                v_set_reg(
                    v_land(v),
                    i.d(),
                    if rs < rt {
                        1u32
                    } else {
                        0u32
                    },
                ),
                Ok(()),
            )
        } else {
            (v_exception(v_land(v), exception_code(Exception::IllegalInstruction)), Ok(()))
        }
    }
}

/// What one decoded instruction does to the state after its cycle has
/// been charged.
pub open spec fn dispatch_spec(v: CpuView, i: Instruction) -> (CpuView, Result<(), Fatal>) {
    let f = i.function();
    let rs = v.regs[i.s() as int];
    let rt = v.regs[i.t() as int];
    let ea = add32(rs, i.imm_se());
    if f == 0b000000 {
        special_spec(v, i)
    } else if f == 0b000001 {
        let linked = if bxx_is_link(i.0) {
            v_set_reg(v_land(v), 31, v.next_pc)
        } else {
            v_land(v)
        };
        if bxx_taken(i.0, rs) {
            (v_take_branch(linked, i.imm_se()), Ok(()))
        } else {
            (linked, Ok(()))
        }
    } else if f == 0b000010 {
        (CpuView { next_pc: jump_target(v.pc, i.imm_jump()), branch: true, ..v_land(v) }, Ok(()))
    } else if f == 0b000011 {
        (
            CpuView {
                next_pc: jump_target(v.pc, i.imm_jump()),
                branch: true,
                ..v_set_reg(v_land(v), 31, v.next_pc)
            },
            Ok(()),
        )
    } else if f == 0b000100 {
        if rs == rt {
            (v_take_branch(v_land(v), i.imm_se()), Ok(()))
        } else {
            (v_land(v), Ok(()))
        }
    } else if f == 0b000101 {
        if rs != rt {
            (v_take_branch(v_land(v), i.imm_se()), Ok(()))
        } else {
            (v_land(v), Ok(()))
        }
    } else if f == 0b000110 {
        if rs as i32 <= 0 {
            (v_take_branch(v_land(v), i.imm_se()), Ok(()))
        } else {
            (v_land(v), Ok(()))
        }
    } else if f == 0b000111 {
        if rs as i32 > 0 {
            (v_take_branch(v_land(v), i.imm_se()), Ok(()))
        } else {
            (v_land(v), Ok(()))
        }
    } else if f == 0b001000 {
        if add_overflows(rs, i.imm_se()) {
            (v_exception(v_land(v), exception_code(Exception::Overflow)), Ok(()))
        } else {
            (v_set_reg(v_land(v), i.t(), add_signed(rs, i.imm_se())), Ok(()))
        }
    } else if f == 0b001001 {
        (v_set_reg(v_land(v), i.t(), add32(rs, i.imm_se())), Ok(()))
    } else if f == 0b001010 {
        (
            v_set_reg(
                v_land(v),
                i.t(),
                if lt_signed(rs, i.imm_se()) {
                    1u32
                } else {
                    0u32
                },
            ),
            Ok(()),
        )
    } else if f == 0b001011 {
        (
            v_set_reg(
                v_land(v),
                i.t(),
                if rs < i.imm_se() {
                    1u32
                } else {
                    0u32
                },
            ),
            Ok(()),
        )
    } else if f == 0b001100 {
        (v_set_reg(v_land(v), i.t(), rs & i.imm()), Ok(()))
    } else if f == 0b001101 {
        (v_set_reg(v_land(v), i.t(), rs | i.imm()), Ok(()))
    } else if f == 0b001110 {
        (v_set_reg(v_land(v), i.t(), rs ^ i.imm()), Ok(()))
    } else if f == 0b001111 {
        (v_set_reg(v_land(v), i.t(), (i.imm() * 0x1_0000) as u32), Ok(()))
    } else if f == 0b010000 {
        cop0_spec(v, i)
    } else if f == 0b010001 {
        (v_exception(v_land(v), exception_code(Exception::CoprocessorError)), Ok(()))
    } else if f == 0b010010 {
        cop2_spec(v, i)
    } else if f == 0b010011 {
        (v_exception(v_land(v), exception_code(Exception::CoprocessorError)), Ok(()))
    } else if f == 0b100000 {
        (v_chain_load(v, i.t(), sign_extend8(byte_at(v.inter.ram, ea))), Ok(()))
    } else if f == 0b100001 {
        if ea % 2 == 0 {
            (v_chain_load(v, i.t(), sign_extend16(half_at(v.inter.ram, ea))), Ok(()))
        } else {
            (v_exception(v_land(v), exception_code(Exception::LoadAddressError)), Ok(()))
        }
    } else if f == 0b100010 {
        let cur = if v.load.0 == i.t() {
            v.load.1
        } else {
            v.out_regs[i.t() as int]
        };
        let word = word_at(v.inter.ram, (ea / 4 * 4) as u32);
        (v_chain_load(v, i.t(), lwl_merge(cur, word, ea % 4)), Ok(()))
    } else if f == 0b100011 {
        if ea % 4 == 0 {
            (v_chain_load(v, i.t(), word_at(v.inter.ram, ea)), Ok(()))
        } else {
            (v_exception(v_land(v), exception_code(Exception::LoadAddressError)), Ok(()))
        }
    } else if f == 0b100100 {
        (v_chain_load(v, i.t(), byte_at(v.inter.ram, ea) as u32), Ok(()))
    } else if f == 0b100101 {
        if ea % 2 == 0 {
            (v_chain_load(v, i.t(), half_at(v.inter.ram, ea)), Ok(()))
        } else {
            (v_exception(v_land(v), exception_code(Exception::LoadAddressError)), Ok(()))
        }
    } else if f == 0b100110 {
        let cur = if v.load.0 == i.t() {
            v.load.1
        } else {
            v.out_regs[i.t() as int]
        };
        let word = word_at(v.inter.ram, (ea / 4 * 4) as u32);
        (v_chain_load(v, i.t(), lwr_merge(cur, word, ea % 4)), Ok(()))
    } else if f == 0b101000 {
        (
            v_store(v_land(v), ea, rt % 0x100, AccessWidth::Byte),
            store_result(v, rt % 0x100, AccessWidth::Byte),
        )
    } else if f == 0b101001 {
        if ea % 2 == 0 {
            (
                v_store(v_land(v), ea, rt % 0x1_0000, AccessWidth::HalfWord),
                store_result(v, rt % 0x1_0000, AccessWidth::HalfWord),
            )
        } else {
            (v_exception(v_land(v), exception_code(Exception::StoreAddressError)), Ok(()))
        }
    } else if f == 0b101010 {
        let mem = word_at(v.inter.ram, (ea / 4 * 4) as u32);
        let merged = swl_merge(mem, rt, ea % 4);
        (v_store(v_land(v), ea, merged, AccessWidth::Word), store_result(v, merged, AccessWidth::Word))
    } else if f == 0b101011 {
        if ea % 4 == 0 {
            (v_store(v_land(v), ea, rt, AccessWidth::Word), store_result(v, rt, AccessWidth::Word))
        } else {
            (v_exception(v_land(v), exception_code(Exception::StoreAddressError)), Ok(()))
        }
    } else if f == 0b101110 {
        let mem = word_at(v.inter.ram, (ea / 4 * 4) as u32);
        let merged = swr_merge(mem, rt, ea % 4);
        (v_store(v_land(v), ea, merged, AccessWidth::Word), store_result(v, merged, AccessWidth::Word))
    } else if f == 0b110000 {
        (v_exception(v_land(v), exception_code(Exception::CoprocessorError)), Ok(()))
    } else if f == 0b110001 {
        (v_exception(v_land(v), exception_code(Exception::CoprocessorError)), Ok(()))
    } else if f == 0b110010 {
        (v, Err(Fatal::GteLoad(i.0)))
    } else if f == 0b110011 {
        (v_exception(v_land(v), exception_code(Exception::CoprocessorError)), Ok(()))
    } else if f == 0b111000 {
        (v_exception(v_land(v), exception_code(Exception::CoprocessorError)), Ok(()))
    } else if f == 0b111001 {
        (v_exception(v_land(v), exception_code(Exception::CoprocessorError)), Ok(()))
    } else if f == 0b111010 {
        (v, Err(Fatal::GteStore(i.0)))
    } else if f == 0b111011 {
        (v_exception(v_land(v), exception_code(Exception::CoprocessorError)), Ok(()))
    } else {
        (v_exception(v_land(v), exception_code(Exception::IllegalInstruction)), Ok(()))
    }
}

/// What one decoded instruction does to the state, including the cycle
/// it is charged: the canonical meaning of every opcode the core
/// implements.
pub open spec fn exec_spec(pre: CpuView, i: Instruction) -> (CpuView, Result<(), Fatal>) {
    dispatch_spec(CpuView { tk: ticked(pre.tk, 1), ..pre }, i)
}

/// What one whole step does: snapshot the program counter (faulting
/// before the fetch when it is misaligned), fetch through the cache,
/// advance the program-counter pair, rotate the branch flag into the
/// delay-slot flag, execute the fetched word, and — unless the machine
/// stopped on a host abort — commit the output registers.
pub open spec fn step_spec(v: CpuView) -> (CpuView, Result<(), Fatal>) {
    let v1 = CpuView { current_pc: v.pc, ..v };
    if v.pc % 4 != 0 {
        (v_exception(v1, exception_code(Exception::LoadAddressError)), Ok(()))
    } else {
        let fetched = fetch_spec(v1);
        let v2 = fetched.0;
        let v3 = CpuView {
            pc: v2.next_pc,
            next_pc: add32(v2.next_pc, 4),
            delay_slot: v2.branch,
            branch: false,
            ..v2
        };
        let stepped = exec_spec(v3, Instruction(fetched.1));
        if stepped.1 is Ok {
            (CpuView { regs: stepped.0.out_regs, ..stepped.0 }, Ok(()))
        } else {
            stepped
        }
    }
}

/// CPU state.
pub struct Cpu {
    /// Keeps track of the emulation's advancement in CPU cycles.
    tk: TimeKeeper,
    /// The program counter: address of the next instruction to fetch.
    pc: u32,
    /// Next value for the PC, used to emulate the branch delay slot.
    next_pc: u32,
    /// Address of the instruction currently being executed, used for
    /// setting EPC in exceptions.
    current_pc: u32,
    /// General purpose registers; the first entry always holds 0.
    regs: [u32; 32],
    /// Second register bank, used to emulate the load delay slot: it
    /// holds the output of the current instruction.
    out_regs: [u32; 32],
    /// HI register, for division remainder and multiplication high
    /// result.
    hi: u32,
    /// LO register, for division quotient and multiplication low result.
    lo: u32,
    /// Instruction cache: 256 lines of 4 words.
    icache: [ICacheLine; 256],
    /// Memory interface.
    inter: Interconnect,
    /// Coprocessor-0 register 12: the status register.
    sr: StatusRegister,
    /// Coprocessor-0 register 13: the cause register.
    cause: u32,
    /// Coprocessor-0 register 14: EPC.
    epc: u32,
    /// Load initiated by the current instruction; takes effect after the
    /// load delay slot.
    load: (u32, u32),
    /// Set by the current instruction if a branch occurred, so the next
    /// instruction is in the delay slot.
    branch: bool,
    /// Set if the current instruction executes in the delay slot.
    delay_slot: bool,
    /// Geometry Transformation Engine data registers.
    gte_data: [u32; 32],
    /// Geometry Transformation Engine control registers.
    gte_control: [u32; 32],
}

impl View for Cpu {
    type V = CpuView;

    closed spec fn view(&self) -> CpuView {
        CpuView {
            tk: self.tk,
            pc: self.pc,
            next_pc: self.next_pc,
            current_pc: self.current_pc,
            regs: self.regs@,
            out_regs: self.out_regs@,
            hi: self.hi,
            lo: self.lo,
            icache: Seq::new(256, |i: int| self.icache@[i]@),
            inter: self.inter@,
            sr: self.sr.0,
            cause: self.cause,
            epc: self.epc,
            load: self.load,
            branch: self.branch,
            delay_slot: self.delay_slot,
            gte_data: self.gte_data@,
            gte_control: self.gte_control@,
        }
    }
}

impl Cpu {
    /// The structural invariant of the core: register 0 reads as zero in
    /// both banks, the pending load targets a real register, and every
    /// embedded table has its full size.
    pub open spec fn wf(self) -> bool {
        &&& self@.regs.len() == 32
        &&& self@.out_regs.len() == 32
        &&& self@.regs[0] == 0
        &&& self@.out_regs[0] == 0
        &&& self@.load.0 < 32
        &&& self@.icache.len() == 256
        &&& self@.inter.ram.len() == RAM_SIZE
        &&& self@.gte_data.len() == 32
        &&& self@.gte_control.len() == 32
        &&& self@.tk.wf()
    }

    /// Create a new CPU instance in its reset state: execution starts at
    /// the BIOS entry point, register 0 is hardwired to zero, and the
    /// other general-purpose registers hold a recognisable garbage value,
    /// as their hardware reset state is undefined.
    pub fn new(inter: Interconnect) -> (c: Cpu)
        requires
            inter.wf(),
        ensures
            c.wf(),
            c@.pc == 0xbfc0_0000,
            c@.next_pc == 0xbfc0_0004,
            c@.current_pc == 0,
            c@.regs == Seq::new(32, |i: int| if i == 0 { 0u32 } else { 0xdead_beefu32 }),
            c@.out_regs == c@.regs,
            c@.hi == 0xdead_beef,
            c@.lo == 0xdead_beef,
            c@.icache == Seq::new(
                256,
                |i: int| LineView { tag_valid: 0, words: Seq::new(4, |j: int| 0xbad0du32) },
            ),
            c@.inter == inter@,
            c@.sr == 0,
            c@.cause == 0,
            c@.epc == 0,
            c@.load == (0u32, 0u32),
            !c@.branch,
            !c@.delay_slot,
            c@.gte_data == Seq::new(32, |i: int| 0u32),
            c@.gte_control == Seq::new(32, |i: int| 0u32),
            c@.tk.now == 0,
    {
        let mut regs = [0xdead_beefu32; 32];
        regs[0] = 0;
        let line = ICacheLine::new();
        let c = Cpu {
            tk: TimeKeeper::new(),
            pc: 0xbfc0_0000,
            next_pc: 0xbfc0_0004,
            current_pc: 0,
            regs,
            out_regs: regs,
            hi: 0xdead_beef,
            lo: 0xdead_beef,
            icache: [line; 256],
            inter,
            sr: StatusRegister(0),
            cause: 0,
            epc: 0,
            load: (0, 0),
            branch: false,
            delay_slot: false,
            gte_data: [0u32; 32],
            gte_control: [0u32; 32],
        };
        proof {
            assert(c@.regs =~= Seq::new(
                32,
                |i: int| if i == 0 { 0u32 } else { 0xdead_beefu32 },
            ));
            assert(c@.icache =~~= Seq::new(
                256,
                |i: int| LineView { tag_valid: 0, words: Seq::new(4, |j: int| 0xbad0du32) },
            ));
            assert(c@.gte_data =~= Seq::new(32, |i: int| 0u32));
            assert(c@.gte_control =~= Seq::new(32, |i: int| 0u32));
        }
        c
    }

    /// The value of architectural register `index` as seen by the current
    /// instruction.
    fn reg(&self, index: u32) -> (r: u32)
        requires
            index < 32,
            self.wf(),
        ensures
            r == self@.regs[index as int],
    {
        self.regs[index as usize]
    }

    /// Write `val` to output register `index`; the write becomes
    /// architectural when the current instruction commits, and register 0
    /// is forced back to zero.
    fn set_out_reg(&mut self, index: u32, val: u32)
        requires
            index < 32,
            old(self).wf(),
        ensures
            final(self).wf(),
            final(self)@ == v_set_reg(old(self)@, index, val),
    {
        self.out_regs[index as usize] = val;
        self.out_regs[0] = 0;
        proof {
            assert(final(self)@ =~~= v_set_reg(old(self)@, index, val));
        }
    }

    /// Set register `index` in both banks, as a debugger or test harness
    /// does between steps; register 0 stays zero.
    pub fn set_reg(&mut self, index: u32, val: u32)
        requires
            index < 32,
            old(self).wf(),
        ensures
            final(self).wf(),
            final(self)@ == (CpuView {
                regs: with_reg(old(self)@.regs, index as int, val),
                out_regs: with_reg(old(self)@.out_regs, index as int, val),
                ..old(self)@
            }),
    {
        self.regs[index as usize] = val;
        self.regs[0] = 0;
        self.out_regs[index as usize] = val;
        self.out_regs[0] = 0;
        proof {
            assert(final(self)@ =~~= (CpuView {
                regs: with_reg(old(self)@.regs, index as int, val),
                out_regs: with_reg(old(self)@.out_regs, index as int, val),
                ..old(self)@
            }));
        }
    }

    /// Trigger an exception: push the mode stack, record the cause and the
    /// faulting address, and jump both program counters to the handler —
    /// exceptions have no branch delay.
    fn exception(&mut self, cause: Exception)
        requires
            old(self).wf(),
        ensures
            final(self).wf(),
            final(self)@ == v_exception(old(self)@, exception_code(cause)),
    {
        self.sr.enter_exception();
        let code = cause.code();
        self.cause = code * 4;
        self.epc = self.current_pc;
        if self.delay_slot {
            self.epc = self.epc.wrapping_sub(4);
            self.cause = self.cause + 0x8000_0000;
        }
        self.pc = self.sr.exception_handler();
        self.next_pc = self.pc.wrapping_add(4);
        proof {
            assert(final(self)@ =~~= v_exception(old(self)@, exception_code(cause)));
        }
    }

    /// Branch to immediate `offset`, in words relative to the delay
    /// slot's successor.
    fn branch(&mut self, offset: u32)
        requires
            old(self).wf(),
        ensures
            final(self).wf(),
            final(self)@ == v_take_branch(old(self)@, offset),
    {
        let shifted = offset << 2u32;
        self.next_pc = self.pc.wrapping_add(shifted);
        self.branch = true;
        proof {
            assert(final(self)@ =~~= v_take_branch(old(self)@, offset));
        }
    }

    /// The general purpose registers.
    pub fn regs(&self) -> (r: &[u32; 32])
        ensures
            r@ == self@.regs,
    {
        &self.regs
    }

    /// The raw status register.
    pub fn sr(&self) -> (r: u32)
        ensures
            r == self@.sr,
    {
        self.sr.as_u32()
    }

    /// The LO register.
    pub fn lo(&self) -> (r: u32)
        ensures
            r == self@.lo,
    {
        self.lo
    }

    /// The HI register.
    pub fn hi(&self) -> (r: u32)
        ensures
            r == self@.hi,
    {
        self.hi
    }

    /// The program counter.
    pub fn pc(&self) -> (r: u32)
        ensures
            r == self@.pc,
    {
        self.pc
    }

    /// The raw cause register.
    pub fn cause(&self) -> (r: u32)
        ensures
            r == self@.cause,
    {
        self.cause
    }

    /// The cycle counter's current date; a host loop checks it against
    /// the (astronomically distant) point where the count would wrap
    /// before stepping further.
    pub fn time(&self) -> (r: u64)
        ensures
            r == self@.tk.now,
    {
        self.tk.now
    }

    /// The bad virtual address register; the console has no memory
    /// management unit, so it always reads zero.
    pub fn bad(&self) -> (r: u32)
        ensures
            r == 0,
    {
        0
    }

    /// Write straight into RAM, bypassing the CPU's store path (no cache
    /// isolation, no debugger hooks): the way a test harness or loader
    /// places code and data into memory.
    pub fn ram_store(&mut self, width: AccessWidth, addr: u32, v: u32)
        requires
            old(self).wf(),
        ensures
            final(self).wf(),
            final(self)@ == (CpuView {
                inter: InterView {
                    ram: match width {
                        AccessWidth::Byte => store_byte(
                            old(self)@.inter.ram,
                            addr,
                            (v % 0x100) as u8,
                        ),
                        AccessWidth::HalfWord => store_half(
                            old(self)@.inter.ram,
                            (addr / 2 * 2) as u32,
                            v,
                        ),
                        AccessWidth::Word => store_word(
                            old(self)@.inter.ram,
                            (addr / 4 * 4) as u32,
                            v,
                        ),
                    },
                    ..old(self)@.inter
                },
                ..old(self)@
            }),
    {
        match width {
            AccessWidth::Byte => self.inter.store8(addr, (v % 0x100) as u8),
            AccessWidth::HalfWord => self.inter.store16(addr, v),
            AccessWidth::Word => self.inter.store32(addr, v),
        }
        proof {
            assert(final(self)@ =~~= (CpuView {
                inter: InterView {
                    ram: match width {
                        AccessWidth::Byte => store_byte(
                            old(self)@.inter.ram,
                            addr,
                            (v % 0x100) as u8,
                        ),
                        AccessWidth::HalfWord => store_half(
                            old(self)@.inter.ram,
                            (addr / 2 * 2) as u32,
                            v,
                        ),
                        AccessWidth::Word => store_word(
                            old(self)@.inter.ram,
                            (addr / 4 * 4) as u32,
                            v,
                        ),
                    },
                    ..old(self)@.inter
                },
                ..old(self)@
            }));
        }
    }

    /// Replace the cache control register, as the boot code does through
    /// its memory-mapped address: bit 11 enables the instruction cache,
    /// bit 2 selects tag-test maintenance mode.
    pub fn set_cache_control(&mut self, v: u32)
        requires
            old(self).wf(),
        ensures
            final(self).wf(),
            final(self)@ == (CpuView {
                inter: InterView { cache_control: v, ..old(self)@.inter },
                ..old(self)@
            }),
    {
        self.inter.set_cache_control(v);
        proof {
            assert(final(self)@ =~~= (CpuView {
                inter: InterView { cache_control: v, ..old(self)@.inter },
                ..old(self)@
            }));
        }
    }

    /// Force the PC, as a debugger does; leaves any delay slot behind.
    pub fn force_pc(&mut self, pc: u32)
        requires
            old(self).wf(),
        ensures
            final(self).wf(),
            final(self)@ == (CpuView {
                pc: pc,
                next_pc: add32(pc, 4),
                delay_slot: false,
                ..old(self)@
            }),
    {
        self.pc = pc;
        self.next_pc = self.pc.wrapping_add(4);
        self.delay_slot = false;
        proof {
            assert(final(self)@ =~~= (CpuView {
                pc: pc,
                next_pc: add32(pc, 4),
                delay_slot: false,
                ..old(self)@
            }));
        }
    }
}

impl Cpu {
    /// Shift Left Logical.
    fn op_sll(&mut self, instruction: Instruction)
        requires
            old(self).wf(),
        ensures
            final(self).wf(),
            final(self)@ == v_set_reg(
                v_land(old(self)@),
                instruction.d(),
                old(self)@.regs[instruction.t() as int] << instruction.shift(),
            ),
    {
        let i = instruction.shift();
        let t = instruction.t();
        let d = instruction.d();
        let v = self.reg(t) << i;
        self.land_pending();
        self.set_out_reg(d, v);
    }

    /// Shift Right Logical.
    fn op_srl(&mut self, instruction: Instruction)
        requires
            old(self).wf(),
        ensures
            final(self).wf(),
            final(self)@ == v_set_reg(
                v_land(old(self)@),
                instruction.d(),
                old(self)@.regs[instruction.t() as int] >> instruction.shift(),
            ),
    {
        let i = instruction.shift();
        let t = instruction.t();
        let d = instruction.d();
        let v = self.reg(t) >> i;
        self.land_pending();
        self.set_out_reg(d, v);
    }

    /// Shift Right Arithmetic.
    fn op_sra(&mut self, instruction: Instruction)
        requires
            old(self).wf(),
        ensures
            final(self).wf(),
            final(self)@ == v_set_reg(
                v_land(old(self)@),
                instruction.d(),
                sra32(old(self)@.regs[instruction.t() as int], instruction.shift()),
            ),
    {
        let i = instruction.shift();
        let t = instruction.t();
        let d = instruction.d();
        let v = (self.reg(t) as i32) >> i;
        self.land_pending();
        self.set_out_reg(d, v as u32);
    }

    /// Shift Left Logical Variable; the shift amount is truncated to five
    /// bits.
    fn op_sllv(&mut self, instruction: Instruction)
        requires
            old(self).wf(),
        ensures
            final(self).wf(),
            final(self)@ == v_set_reg(
                v_land(old(self)@),
                instruction.d(),
                old(self)@.regs[instruction.t() as int] << (old(self)@.regs[instruction.s() as int]
                    % 32),
            ),
    {
        let d = instruction.d();
        let s = instruction.s();
        let t = instruction.t();
        let v = self.reg(t) << (self.reg(s) % 32);
        self.land_pending();
        self.set_out_reg(d, v);
    }

    /// Shift Right Logical Variable; the shift amount is truncated to
    /// five bits.
    fn op_srlv(&mut self, instruction: Instruction)
        requires
            old(self).wf(),
        ensures
            final(self).wf(),
            final(self)@ == v_set_reg(
                v_land(old(self)@),
                instruction.d(),
                old(self)@.regs[instruction.t() as int] >> (old(self)@.regs[instruction.s() as int]
                    % 32),
            ),
    {
        let d = instruction.d();
        let s = instruction.s();
        let t = instruction.t();
        let v = self.reg(t) >> (self.reg(s) % 32);
        self.land_pending();
        self.set_out_reg(d, v);
    }

    /// Shift Right Arithmetic Variable; the shift amount is truncated to
    /// five bits.
    fn op_srav(&mut self, instruction: Instruction)
        requires
            old(self).wf(),
        ensures
            final(self).wf(),
            final(self)@ == v_set_reg(
                v_land(old(self)@),
                instruction.d(),
                sra32(
                    old(self)@.regs[instruction.t() as int],
                    old(self)@.regs[instruction.s() as int] % 32,
                ),
            ),
    {
        let d = instruction.d();
        let s = instruction.s();
        let t = instruction.t();
        let v = (self.reg(t) as i32) >> (self.reg(s) % 32);
        self.land_pending();
        self.set_out_reg(d, v as u32);
    }

    /// The BxxZ branch family: BGEZ, BLTZ, BGEZAL and BLTZAL, multiplexed
    /// by bits 16 and 20. The linking variants write the return address
    /// into R31 whether or not the branch is taken.
    fn op_bxx(&mut self, instruction: Instruction)
        requires
            old(self).wf(),
        ensures
            final(self).wf(),
            final(self)@ == ({
                let linked = if bxx_is_link(instruction.0) {
                    v_set_reg(v_land(old(self)@), 31, old(self)@.next_pc)
                } else {
                    v_land(old(self)@)
                };
                if bxx_taken(instruction.0, old(self)@.regs[instruction.s() as int]) {
                    v_take_branch(linked, instruction.imm_se())
                } else {
                    linked
                }
            }),
    {
        self.land_pending();
        let i = instruction.imm_se();
        let s = instruction.s();
        let is_bgez = instruction.0 / 0x1_0000 % 2 == 1;
        let is_link = instruction.0 / 0x10_0000 % 2 == 1;
        let v = self.reg(s) as i32;
        let taken = (v < 0) != is_bgez;
        if is_link {
            let ra = self.next_pc;
            self.set_out_reg(31, ra);
        }
        if taken {
            self.branch(i);
        }
    }

    /// Jump Register.
    fn op_jr(&mut self, instruction: Instruction)
        requires
            old(self).wf(),
        ensures
            final(self).wf(),
            final(self)@ == (CpuView {
                next_pc: old(self)@.regs[instruction.s() as int],
                branch: true,
                ..v_land(old(self)@)
            }),
    {
        self.land_pending();
        let s = instruction.s();
        self.next_pc = self.reg(s);
        self.branch = true;
        proof {
            assert(final(self)@ =~~= (CpuView {
                next_pc: old(self)@.regs[instruction.s() as int],
                branch: true,
                ..v_land(old(self)@)
            }));
        }
    }

    /// Jump And Link Register: the return address lands in the
    /// destination register before the jump target is read.
    fn op_jalr(&mut self, instruction: Instruction)
        requires
            old(self).wf(),
        ensures
            final(self).wf(),
            final(self)@ == (CpuView {
                next_pc: old(self)@.regs[instruction.s() as int],
                branch: true,
                ..v_set_reg(v_land(old(self)@), instruction.d(), old(self)@.next_pc)
            }),
    {
        self.land_pending();
        let d = instruction.d();
        let s = instruction.s();
        let ra = self.next_pc;
        self.set_out_reg(d, ra);
        self.next_pc = self.reg(s);
        self.branch = true;
        proof {
            assert(final(self)@ =~~= (CpuView {
                next_pc: old(self)@.regs[instruction.s() as int],
                branch: true,
                ..v_set_reg(v_land(old(self)@), instruction.d(), old(self)@.next_pc)
            }));
        }
    }

    /// System Call.
    fn op_syscall(&mut self, instruction: Instruction)
        requires
            old(self).wf(),
        ensures
            final(self).wf(),
            final(self)@ == v_exception(v_land(old(self)@), exception_code(Exception::SysCall)),
    {
        self.land_pending();
        self.exception(Exception::SysCall);
    }

    /// Break.
    fn op_break(&mut self, instruction: Instruction)
        requires
            old(self).wf(),
        ensures
            final(self).wf(),
            final(self)@ == v_exception(v_land(old(self)@), exception_code(Exception::Break)),
    {
        self.land_pending();
        self.exception(Exception::Break);
    }

    /// Move From HI.
    fn op_mfhi(&mut self, instruction: Instruction)
        requires
            old(self).wf(),
        ensures
            final(self).wf(),
            final(self)@ == v_set_reg(v_land(old(self)@), instruction.d(), old(self)@.hi),
    {
        let d = instruction.d();
        let hi = self.hi;
        self.land_pending();
        self.set_out_reg(d, hi);
    }

    /// Move To HI.
    fn op_mthi(&mut self, instruction: Instruction)
        requires
            old(self).wf(),
        ensures
            final(self).wf(),
            final(self)@ == (CpuView { hi: old(self)@.regs[instruction.s() as int], ..v_land(old(self)@) }),
    {
        self.land_pending();
        let s = instruction.s();
        self.hi = self.reg(s);
        proof {
            assert(final(self)@ =~~= (CpuView {
                hi: old(self)@.regs[instruction.s() as int],
                ..v_land(old(self)@)
            }));
        }
    }

    /// Move From LO.
    fn op_mflo(&mut self, instruction: Instruction)
        requires
            old(self).wf(),
        ensures
            final(self).wf(),
            final(self)@ == v_set_reg(v_land(old(self)@), instruction.d(), old(self)@.lo),
    {
        let d = instruction.d();
        let lo = self.lo;
        self.land_pending();
        self.set_out_reg(d, lo);
    }

    /// Move To LO.
    fn op_mtlo(&mut self, instruction: Instruction)
        requires
            old(self).wf(),
        ensures
            final(self).wf(),
            final(self)@ == (CpuView { lo: old(self)@.regs[instruction.s() as int], ..v_land(old(self)@) }),
    {
        self.land_pending();
        let s = instruction.s();
        self.lo = self.reg(s);
        proof {
            assert(final(self)@ =~~= (CpuView {
                lo: old(self)@.regs[instruction.s() as int],
                ..v_land(old(self)@)
            }));
        }
    }

    /// Multiply (signed): the 64-bit product lands in {HI, LO}.
    fn op_mult(&mut self, instruction: Instruction)
        requires
            old(self).wf(),
        ensures
            final(self).wf(),
            final(self)@ == (CpuView {
                hi: (mult_product(
                    old(self)@.regs[instruction.s() as int],
                    old(self)@.regs[instruction.t() as int],
                ) >> 32u32) as u32,
                lo: mult_product(
                    old(self)@.regs[instruction.s() as int],
                    old(self)@.regs[instruction.t() as int],
                ) as u32,
                ..v_land(old(self)@)
            }),
    {
        self.land_pending();
        let s = instruction.s();
        let t = instruction.t();
        let a = (self.reg(s) as i32) as i64;
        let b = (self.reg(t) as i32) as i64;
        proof {
            assert(a * b <= i64::MAX && a * b >= i64::MIN) by (nonlinear_arith)
                requires
                    -0x8000_0000 <= a <= 0x7fff_ffff,
                    -0x8000_0000 <= b <= 0x7fff_ffff,
            ;
        }
        let p = match a.checked_mul(b) {
            Some(p) => p,
            None => 0,
        };
        let v = p as u64;
        self.hi = (v >> 32u32) as u32;
        self.lo = v as u32;
        proof {
            assert(final(self)@ =~~= (CpuView {
                hi: (mult_product(
                    old(self)@.regs[instruction.s() as int],
                    old(self)@.regs[instruction.t() as int],
                ) >> 32u32) as u32,
                lo: mult_product(
                    old(self)@.regs[instruction.s() as int],
                    old(self)@.regs[instruction.t() as int],
                ) as u32,
                ..v_land(old(self)@)
            }));
        }
    }

    /// Multiply Unsigned: the 64-bit product lands in {HI, LO}.
    fn op_multu(&mut self, instruction: Instruction)
        requires
            old(self).wf(),
        ensures
            final(self).wf(),
            final(self)@ == (CpuView {
                hi: (multu_product(
                    old(self)@.regs[instruction.s() as int],
                    old(self)@.regs[instruction.t() as int],
                ) >> 32u32) as u32,
                lo: multu_product(
                    old(self)@.regs[instruction.s() as int],
                    old(self)@.regs[instruction.t() as int],
                ) as u32,
                ..v_land(old(self)@)
            }),
    {
        self.land_pending();
        let s = instruction.s();
        let t = instruction.t();
        let a = self.reg(s) as u64;
        let b = self.reg(t) as u64;
        proof {
            assert(a * b <= u64::MAX) by (nonlinear_arith)
                requires
                    a <= 0xffff_ffff,
                    b <= 0xffff_ffff,
            ;
        }
        let v = a * b;
        self.hi = (v >> 32u32) as u32;
        self.lo = v as u32;
        proof {
            assert(final(self)@ =~~= (CpuView {
                hi: (multu_product(
                    old(self)@.regs[instruction.s() as int],
                    old(self)@.regs[instruction.t() as int],
                ) >> 32u32) as u32,
                lo: multu_product(
                    old(self)@.regs[instruction.s() as int],
                    old(self)@.regs[instruction.t() as int],
                ) as u32,
                ..v_land(old(self)@)
            }));
        }
    }

    /// Divide (signed): quotient into LO, remainder into HI, with the
    /// divider's documented results on division by zero and on the one
    /// unrepresentable quotient.
    fn op_div(&mut self, instruction: Instruction)
        requires
            old(self).wf(),
        ensures
            final(self).wf(),
            final(self)@ == (CpuView {
                hi: div_hi(
                    old(self)@.regs[instruction.s() as int],
                    old(self)@.regs[instruction.t() as int],
                ),
                lo: div_lo(
                    old(self)@.regs[instruction.s() as int],
                    old(self)@.regs[instruction.t() as int],
                ),
                ..v_land(old(self)@)
            }),
    {
        self.land_pending();
        let s = instruction.s();
        let t = instruction.t();
        let ns = self.reg(s);
        let n = ns as i32;
        let d = self.reg(t) as i32;
        proof {
            lemma_min_pattern(ns);
        }
        if d == 0 {
            // Division by zero: the hardware gives bogus but documented
            // results.
            self.hi = ns;
            if n >= 0 {
                self.lo = 0xffff_ffff;
            } else {
                self.lo = 1;
            }
        } else if ns == 0x8000_0000 && d == -1 {
            // The result is not representable in a 32-bit signed integer.
            self.hi = 0;
            self.lo = 0x8000_0000;
        } else {
            proof {
                lemma_trunc_div_bounds(n, d);
            }
            let q = match n.checked_div(d) {
                Some(q) => q,
                None => 0,
            };
            let r = match n.checked_rem(d) {
                Some(r) => r,
                None => 0,
            };
            self.hi = r as u32;
            self.lo = q as u32;
        }
        proof {
            assert(final(self)@ =~~= (CpuView {
                hi: div_hi(
                    old(self)@.regs[instruction.s() as int],
                    old(self)@.regs[instruction.t() as int],
                ),
                lo: div_lo(
                    old(self)@.regs[instruction.s() as int],
                    old(self)@.regs[instruction.t() as int],
                ),
                ..v_land(old(self)@)
            }));
        }
    }

    /// Divide Unsigned: quotient into LO, remainder into HI, with the
    /// divider's documented results on division by zero.
    fn op_divu(&mut self, instruction: Instruction)
        requires
            old(self).wf(),
        ensures
            final(self).wf(),
            final(self)@ == ({
                let n = old(self)@.regs[instruction.s() as int];
                let d = old(self)@.regs[instruction.t() as int];
                if d == 0 {
                    CpuView { hi: n, lo: 0xffff_ffffu32, ..v_land(old(self)@) }
                } else {
                    CpuView { hi: (n % d) as u32, lo: (n / d) as u32, ..v_land(old(self)@) }
                }
            }),
    {
        self.land_pending();
        let s = instruction.s();
        let t = instruction.t();
        let n = self.reg(s);
        let d = self.reg(t);
        if d == 0 {
            // Division by zero: the hardware gives bogus but documented
            // results.
            self.hi = n;
            self.lo = 0xffff_ffff;
        } else {
            self.hi = n % d;
            self.lo = n / d;
        }
        proof {
            assert(final(self)@ =~~= ({
                let n = old(self)@.regs[instruction.s() as int];
                let d = old(self)@.regs[instruction.t() as int];
                if d == 0 {
                    CpuView { hi: n, lo: 0xffff_ffffu32, ..v_land(old(self)@) }
                } else {
                    CpuView { hi: (n % d) as u32, lo: (n / d) as u32, ..v_land(old(self)@) }
                }
            }));
        }
    }

    /// Add, trapping on signed overflow; the destination is left
    /// unchanged when the trap is taken.
    fn op_add(&mut self, instruction: Instruction)
        requires
            old(self).wf(),
        ensures
            final(self).wf(),
            final(self)@ == ({
                let x = old(self)@.regs[instruction.s() as int];
                let y = old(self)@.regs[instruction.t() as int];
                if add_overflows(x, y) {
                    v_exception(v_land(old(self)@), exception_code(Exception::Overflow))
                } else {
                    v_set_reg(v_land(old(self)@), instruction.d(), add_signed(x, y))
                }
            }),
    {
        self.land_pending();
        let s = instruction.s();
        let t = instruction.t();
        let d = instruction.d();
        let sv = self.reg(s) as i32;
        let tv = self.reg(t) as i32;
        match sv.checked_add(tv) {
            Some(v) => self.set_out_reg(d, v as u32),
            None => self.exception(Exception::Overflow),
        }
    }

    /// Add Unsigned: wrapping addition.
    fn op_addu(&mut self, instruction: Instruction)
        requires
            old(self).wf(),
        ensures
            final(self).wf(),
            final(self)@ == v_set_reg(
                v_land(old(self)@),
                instruction.d(),
                add32(
                    old(self)@.regs[instruction.s() as int],
                    old(self)@.regs[instruction.t() as int],
                ),
            ),
    {
        let s = instruction.s();
        let t = instruction.t();
        let d = instruction.d();
        let v = self.reg(s).wrapping_add(self.reg(t));
        self.land_pending();
        self.set_out_reg(d, v);
    }

    /// Subtract, trapping on signed overflow; the destination is left
    /// unchanged when the trap is taken.
    fn op_sub(&mut self, instruction: Instruction)
        requires
            old(self).wf(),
        ensures
            final(self).wf(),
            final(self)@ == ({
                let x = old(self)@.regs[instruction.s() as int];
                let y = old(self)@.regs[instruction.t() as int];
                if sub_overflows(x, y) {
                    v_exception(v_land(old(self)@), exception_code(Exception::Overflow))
                } else {
                    v_set_reg(v_land(old(self)@), instruction.d(), sub_signed(x, y))
                }
            }),
    {
        self.land_pending();
        let s = instruction.s();
        let t = instruction.t();
        let d = instruction.d();
        let sv = self.reg(s) as i32;
        let tv = self.reg(t) as i32;
        match sv.checked_sub(tv) {
            Some(v) => self.set_out_reg(d, v as u32),
            None => self.exception(Exception::Overflow),
        }
    }

    /// Subtract Unsigned: wrapping subtraction.
    fn op_subu(&mut self, instruction: Instruction)
        requires
            old(self).wf(),
        ensures
            final(self).wf(),
            final(self)@ == v_set_reg(
                v_land(old(self)@),
                instruction.d(),
                sub32(
                    old(self)@.regs[instruction.s() as int],
                    old(self)@.regs[instruction.t() as int],
                ),
            ),
    {
        let s = instruction.s();
        let t = instruction.t();
        let d = instruction.d();
        let v = self.reg(s).wrapping_sub(self.reg(t));
        self.land_pending();
        self.set_out_reg(d, v);
    }

    /// Bitwise And.
    fn op_and(&mut self, instruction: Instruction)
        requires
            old(self).wf(),
        ensures
            final(self).wf(),
            final(self)@ == v_set_reg(
                v_land(old(self)@),
                instruction.d(),
                old(self)@.regs[instruction.s() as int] & old(self)@.regs[instruction.t() as int],
            ),
    {
        let d = instruction.d();
        let s = instruction.s();
        let t = instruction.t();
        let v = self.reg(s) & self.reg(t);
        self.land_pending();
        self.set_out_reg(d, v);
    }

    /// Bitwise Or.
    fn op_or(&mut self, instruction: Instruction)
        requires
            old(self).wf(),
        ensures
            final(self).wf(),
            final(self)@ == v_set_reg(
                v_land(old(self)@),
                instruction.d(),
                old(self)@.regs[instruction.s() as int] | old(self)@.regs[instruction.t() as int],
            ),
    {
        let d = instruction.d();
        let s = instruction.s();
        let t = instruction.t();
        let v = self.reg(s) | self.reg(t);
        self.land_pending();
        self.set_out_reg(d, v);
    }

    /// Bitwise Exclusive Or.
    fn op_xor(&mut self, instruction: Instruction)
        requires
            old(self).wf(),
        ensures
            final(self).wf(),
            final(self)@ == v_set_reg(
                v_land(old(self)@),
                instruction.d(),
                old(self)@.regs[instruction.s() as int] ^ old(self)@.regs[instruction.t() as int],
            ),
    {
        let d = instruction.d();
        let s = instruction.s();
        let t = instruction.t();
        let v = self.reg(s) ^ self.reg(t);
        self.land_pending();
        self.set_out_reg(d, v);
    }

    /// Bitwise Not Or.
    fn op_nor(&mut self, instruction: Instruction)
        requires
            old(self).wf(),
        ensures
            final(self).wf(),
            final(self)@ == v_set_reg(
                v_land(old(self)@),
                instruction.d(),
                !(old(self)@.regs[instruction.s() as int] | old(self)@.regs[instruction.t() as int]),
            ),
    {
        let d = instruction.d();
        let s = instruction.s();
        let t = instruction.t();
        let v = !(self.reg(s) | self.reg(t));
        self.land_pending();
        self.set_out_reg(d, v);
    }

    /// Set on Less Than (signed comparison).
    fn op_slt(&mut self, instruction: Instruction)
        requires
            old(self).wf(),
        ensures
            final(self).wf(),
            final(self)@ == v_set_reg(
                v_land(old(self)@),
                instruction.d(),
                if lt_signed(
                    old(self)@.regs[instruction.s() as int],
                    old(self)@.regs[instruction.t() as int],
                ) {
                    1u32
                } else {
                    0u32
                },
            ),
    {
        let d = instruction.d();
        let s = instruction.s();
        let t = instruction.t();
        let sv = self.reg(s) as i32;
        let tv = self.reg(t) as i32;
        let v: u32 = if sv < tv {
            1
        } else {
            0
        };
        self.land_pending();
        self.set_out_reg(d, v);
    }

    /// Set on Less Than Unsigned.
    fn op_sltu(&mut self, instruction: Instruction)
        requires
            old(self).wf(),
        ensures
            final(self).wf(),
            final(self)@ == v_set_reg(
                v_land(old(self)@),
                instruction.d(),
                if old(self)@.regs[instruction.s() as int] < old(self)@.regs[instruction.t() as int] {
                    1u32
                } else {
                    0u32
                },
            ),
    {
        let d = instruction.d();
        let s = instruction.s();
        let t = instruction.t();
        let v: u32 = if self.reg(s) < self.reg(t) {
            1
        } else {
            0
        };
        self.land_pending();
        self.set_out_reg(d, v);
    }

    /// Jump within the current 256 MiB segment.
    fn op_j(&mut self, instruction: Instruction)
        requires
            old(self).wf(),
        ensures
            final(self).wf(),
            final(self)@ == (CpuView {
                next_pc: jump_target(old(self)@.pc, instruction.imm_jump()),
                branch: true,
                ..v_land(old(self)@)
            }),
    {
        self.land_pending();
        let i = instruction.imm_jump();
        self.next_pc = self.pc / 0x1000_0000 * 0x1000_0000 + i * 4;
        self.branch = true;
        proof {
            assert(final(self)@ =~~= (CpuView {
                next_pc: jump_target(old(self)@.pc, instruction.imm_jump()),
                branch: true,
                ..v_land(old(self)@)
            }));
        }
    }

    /// Jump And Link: the return address lands in R31.
    fn op_jal(&mut self, instruction: Instruction)
        requires
            old(self).wf(),
        ensures
            final(self).wf(),
            final(self)@ == (CpuView {
                next_pc: jump_target(old(self)@.pc, instruction.imm_jump()),
                branch: true,
                ..v_set_reg(v_land(old(self)@), 31, old(self)@.next_pc)
            }),
    {
        self.land_pending();
        let ra = self.next_pc;
        self.set_out_reg(31, ra);
        let i = instruction.imm_jump();
        self.next_pc = self.pc / 0x1000_0000 * 0x1000_0000 + i * 4;
        self.branch = true;
        proof {
            assert(final(self)@ =~~= (CpuView {
                next_pc: jump_target(old(self)@.pc, instruction.imm_jump()),
                branch: true,
                ..v_set_reg(v_land(old(self)@), 31, old(self)@.next_pc)
            }));
        }
    }

    /// Branch if Equal.
    fn op_beq(&mut self, instruction: Instruction)
        requires
            old(self).wf(),
        ensures
            final(self).wf(),
            final(self)@ == if old(self)@.regs[instruction.s() as int] == old(
                self,
            )@.regs[instruction.t() as int] {
                v_take_branch(v_land(old(self)@), instruction.imm_se())
            } else {
                v_land(old(self)@)
            },
    {
        self.land_pending();
        let i = instruction.imm_se();
        let s = instruction.s();
        let t = instruction.t();
        if self.reg(s) == self.reg(t) {
            self.branch(i);
        }
    }

    /// Branch if Not Equal.
    fn op_bne(&mut self, instruction: Instruction)
        requires
            old(self).wf(),
        ensures
            final(self).wf(),
            final(self)@ == if old(self)@.regs[instruction.s() as int] != old(
                self,
            )@.regs[instruction.t() as int] {
                v_take_branch(v_land(old(self)@), instruction.imm_se())
            } else {
                v_land(old(self)@)
            },
    {
        self.land_pending();
        let i = instruction.imm_se();
        let s = instruction.s();
        let t = instruction.t();
        if self.reg(s) != self.reg(t) {
            self.branch(i);
        }
    }

    /// Branch if Less than or Equal to Zero (signed).
    fn op_blez(&mut self, instruction: Instruction)
        requires
            old(self).wf(),
        ensures
            final(self).wf(),
            final(self)@ == if old(self)@.regs[instruction.s() as int] as i32 <= 0 {
                v_take_branch(v_land(old(self)@), instruction.imm_se())
            } else {
                v_land(old(self)@)
            },
    {
        self.land_pending();
        let i = instruction.imm_se();
        let s = instruction.s();
        let v = self.reg(s) as i32;
        if v <= 0 {
            self.branch(i);
        }
    }

    /// Branch if Greater Than Zero (signed).
    fn op_bgtz(&mut self, instruction: Instruction)
        requires
            old(self).wf(),
        ensures
            final(self).wf(),
            final(self)@ == if old(self)@.regs[instruction.s() as int] as i32 > 0 {
                v_take_branch(v_land(old(self)@), instruction.imm_se())
            } else {
                v_land(old(self)@)
            },
    {
        self.land_pending();
        let i = instruction.imm_se();
        let s = instruction.s();
        let v = self.reg(s) as i32;
        if v > 0 {
            self.branch(i);
        }
    }

    /// Add Immediate, trapping on signed overflow; the destination is
    /// left unchanged when the trap is taken.
    fn op_addi(&mut self, instruction: Instruction)
        requires
            old(self).wf(),
        ensures
            final(self).wf(),
            final(self)@ == ({
                let x = old(self)@.regs[instruction.s() as int];
                let y = instruction.imm_se();
                if add_overflows(x, y) {
                    v_exception(v_land(old(self)@), exception_code(Exception::Overflow))
                } else {
                    v_set_reg(v_land(old(self)@), instruction.t(), add_signed(x, y))
                }
            }),
    {
        self.land_pending();
        let i = instruction.imm_se() as i32;
        let t = instruction.t();
        let s = instruction.s();
        let sv = self.reg(s) as i32;
        match sv.checked_add(i) {
            Some(v) => self.set_out_reg(t, v as u32),
            None => self.exception(Exception::Overflow),
        }
    }

    /// Add Immediate Unsigned: wrapping addition of the sign-extended
    /// immediate, despite the name.
    fn op_addiu(&mut self, instruction: Instruction)
        requires
            old(self).wf(),
        ensures
            final(self).wf(),
            final(self)@ == v_set_reg(
                v_land(old(self)@),
                instruction.t(),
                add32(old(self)@.regs[instruction.s() as int], instruction.imm_se()),
            ),
    {
        let i = instruction.imm_se();
        let t = instruction.t();
        let s = instruction.s();
        let v = self.reg(s).wrapping_add(i);
        self.land_pending();
        self.set_out_reg(t, v);
    }

    /// Set if Less Than Immediate (signed comparison against the
    /// sign-extended immediate).
    fn op_slti(&mut self, instruction: Instruction)
        requires
            old(self).wf(),
        ensures
            final(self).wf(),
            final(self)@ == v_set_reg(
                v_land(old(self)@),
                instruction.t(),
                if lt_signed(old(self)@.regs[instruction.s() as int], instruction.imm_se()) {
                    1u32
                } else {
                    0u32
                },
            ),
    {
        let i = instruction.imm_se() as i32;
        let s = instruction.s();
        let t = instruction.t();
        let v: u32 = if (self.reg(s) as i32) < i {
            1
        } else {
            0
        };
        self.land_pending();
        self.set_out_reg(t, v);
    }

    /// Set if Less Than Immediate Unsigned (against the sign-extended
    /// immediate reinterpreted as unsigned).
    fn op_sltiu(&mut self, instruction: Instruction)
        requires
            old(self).wf(),
        ensures
            final(self).wf(),
            final(self)@ == v_set_reg(
                v_land(old(self)@),
                instruction.t(),
                if old(self)@.regs[instruction.s() as int] < instruction.imm_se() {
                    1u32
                } else {
                    0u32
                },
            ),
    {
        let i = instruction.imm_se();
        let s = instruction.s();
        let t = instruction.t();
        let v: u32 = if self.reg(s) < i {
            1
        } else {
            0
        };
        self.land_pending();
        self.set_out_reg(t, v);
    }

    /// Bitwise And Immediate (zero-extended).
    fn op_andi(&mut self, instruction: Instruction)
        requires
            old(self).wf(),
        ensures
            final(self).wf(),
            final(self)@ == v_set_reg(
                v_land(old(self)@),
                instruction.t(),
                old(self)@.regs[instruction.s() as int] & instruction.imm(),
            ),
    {
        let i = instruction.imm();
        let t = instruction.t();
        let s = instruction.s();
        let v = self.reg(s) & i;
        self.land_pending();
        self.set_out_reg(t, v);
    }

    /// Bitwise Or Immediate (zero-extended).
    fn op_ori(&mut self, instruction: Instruction)
        requires
            old(self).wf(),
        ensures
            final(self).wf(),
            final(self)@ == v_set_reg(
                v_land(old(self)@),
                instruction.t(),
                old(self)@.regs[instruction.s() as int] | instruction.imm(),
            ),
    {
        let i = instruction.imm();
        let t = instruction.t();
        let s = instruction.s();
        let v = self.reg(s) | i;
        self.land_pending();
        self.set_out_reg(t, v);
    }

    /// Bitwise Exclusive Or Immediate (zero-extended).
    fn op_xori(&mut self, instruction: Instruction)
        requires
            old(self).wf(),
        ensures
            final(self).wf(),
            final(self)@ == v_set_reg(
                v_land(old(self)@),
                instruction.t(),
                old(self)@.regs[instruction.s() as int] ^ instruction.imm(),
            ),
    {
        let i = instruction.imm();
        let t = instruction.t();
        let s = instruction.s();
        let v = self.reg(s) ^ i;
        self.land_pending();
        self.set_out_reg(t, v);
    }

    /// Load Upper Immediate: the immediate fills bits [31:16], the low
    /// bits are cleared.
    fn op_lui(&mut self, instruction: Instruction)
        requires
            old(self).wf(),
        ensures
            final(self).wf(),
            final(self)@ == v_set_reg(
                v_land(old(self)@),
                instruction.t(),
                (instruction.imm() * 0x1_0000) as u32,
            ),
    {
        let i = instruction.imm();
        let t = instruction.t();
        let v = i * 0x1_0000;
        self.land_pending();
        self.set_out_reg(t, v);
    }

    /// Read a byte from memory, announcing the access to the debugger.
    fn load8<D: Debugger>(&self, addr: u32, debugger: &mut D) -> (r: u8)
        requires
            self.wf(),
        ensures
            r == byte_at(self@.inter.ram, addr),
    {
        debugger.memory_read(addr);
        self.inter.load8(addr)
    }

    /// Read a halfword from memory, announcing the access to the
    /// debugger.
    fn load16<D: Debugger>(&self, addr: u32, debugger: &mut D) -> (r: u32)
        requires
            self.wf(),
        ensures
            r == half_at(self@.inter.ram, (addr / 2 * 2) as u32),
            r < 0x1_0000,
    {
        debugger.memory_read(addr);
        self.inter.load16(addr)
    }

    /// Read a word from memory, announcing the access to the debugger.
    fn load32<D: Debugger>(&self, addr: u32, debugger: &mut D) -> (r: u32)
        requires
            self.wf(),
        ensures
            r == word_at(self@.inter.ram, (addr / 4 * 4) as u32),
    {
        debugger.memory_read(addr);
        self.inter.load32(addr)
    }

    /// Memory read with no side effect at all, for a debugger: the same
    /// value as an emulated load of the given width, zero-extended.
    pub fn examine(&self, width: AccessWidth, addr: u32) -> (r: u32)
        requires
            self.wf(),
        ensures
            r == examine_spec(self@, width, addr),
    {
        match width {
            AccessWidth::Byte => self.inter.load8(addr) as u32,
            AccessWidth::HalfWord => self.inter.load16(addr),
            AccessWidth::Word => self.inter.load32(addr),
        }
    }

    /// Handle writes while the cache is isolated: in tag-test mode the
    /// write invalidates the targeted line, otherwise it lands directly
    /// in the cache. Only full-word writes of zero are supported.
    pub fn cache_maintenance(&mut self, addr: u32, val: u32, width: AccessWidth) -> (r: Result<
        (),
        Fatal,
    >)
        requires
            old(self).wf(),
        ensures
            final(self).wf(),
            r == cache_maintenance_result(old(self)@, val, width),
            final(self)@ == if r is Ok {
                v_cache_maintenance(old(self)@, addr, val)
            } else {
                old(self)@
            },
    {
        let cc = self.inter.cache_control();
        if !cc.icache_enabled() {
            return Err(Fatal::CacheMaintenanceWhileDisabled);
        }
        let is_word = match width {
            AccessWidth::Word => true,
            _ => false,
        };
        if !is_word || val != 0 {
            return Err(Fatal::UnsupportedIsolatedStore(val));
        }
        let line_idx = (addr / 16 % 256) as usize;
        let mut line = self.icache[line_idx];
        if cc.tag_test_mode() {
            // In tag test mode the write invalidates the entire targeted
            // line.
            line.invalidate();
        } else {
            // Otherwise the write ends up directly in the cache.
            let index = addr / 4 % 4;
            line.set_instruction(index, Instruction(val));
        }
        self.icache[line_idx] = line;
        proof {
            assert(self@ =~~= v_cache_maintenance(old(self)@, addr, val));
        }
        Ok(())
    }

    /// Write to memory, announcing the access to the debugger; while the
    /// cache is isolated the write is diverted into cache maintenance.
    fn store<D: Debugger>(
        &mut self,
        addr: u32,
        val: u32,
        width: AccessWidth,
        debugger: &mut D,
    ) -> (r: Result<(), Fatal>)
        requires
            old(self).wf(),
        ensures
            final(self).wf(),
            r == store_result(old(self)@, val, width),
            final(self)@ == v_store(old(self)@, addr, val, width),
    {
        debugger.memory_write(addr);
        if self.sr.cache_isolated() {
            self.cache_maintenance(addr, val, width)
        } else {
            match width {
                AccessWidth::Byte => self.inter.store8(addr, (val % 0x100) as u8),
                AccessWidth::HalfWord => self.inter.store16(addr, val),
                AccessWidth::Word => self.inter.store32(addr, val),
            }
            proof {
                assert(self@ =~~= v_store(old(self)@, addr, val, width));
            }
            Ok(())
        }
    }

    /// Illegal instruction: raised as an architectural fault, never a
    /// host abort.
    fn op_illegal(&mut self, instruction: Instruction)
        requires
            old(self).wf(),
        ensures
            final(self).wf(),
            final(self)@ == v_exception(v_land(old(self)@), exception_code(Exception::IllegalInstruction)),
    {
        self.land_pending();
        self.exception(Exception::IllegalInstruction);
    }

    /// Land the pending load in the output registers and clear the slot;
    /// every instruction that is not itself a load does this before
    /// writing its own results.
    fn land_pending(&mut self)
        requires
            old(self).wf(),
        ensures
            final(self).wf(),
            final(self)@ == v_land(old(self)@),
    {
        let (p_reg, p_val) = self.load;
        self.set_out_reg(p_reg, p_val);
        self.load = (0, 0);
        proof {
            assert(final(self)@ =~~= v_land(old(self)@));
        }
    }

    /// Stage a load of `val` for register `t`, landing any pending load
    /// of a different register first; a pending load of the same
    /// register is cancelled outright.
    fn chain_load(&mut self, t: u32, val: u32)
        requires
            old(self).wf(),
            t < 32,
        ensures
            final(self).wf(),
            final(self)@ == v_chain_load(old(self)@, t, val),
    {
        let (p_reg, p_val) = self.load;
        if p_reg != t {
            self.set_out_reg(p_reg, p_val);
        }
        self.load = (t, val);
        proof {
            assert(final(self)@ =~~= v_chain_load(old(self)@, t, val));
        }
    }

    /// Load Byte (sign-extended), through the load delay slot.
    fn op_lb<D: Debugger>(&mut self, instruction: Instruction, debugger: &mut D)
        requires
            old(self).wf(),
        ensures
            final(self).wf(),
            final(self)@ == ({
                let addr = add32(old(self)@.regs[instruction.s() as int], instruction.imm_se());
                v_chain_load(
                    old(self)@,
                    instruction.t(),
                    sign_extend8(byte_at(old(self)@.inter.ram, addr)),
                )
            }),
    {
        let i = instruction.imm_se();
        let t = instruction.t();
        let s = instruction.s();
        let addr = self.reg(s).wrapping_add(i);
        let b = self.load8(addr, debugger);
        let v: u32 = if b < 0x80 {
            b as u32
        } else {
            b as u32 + 0xffff_ff00
        };
        self.chain_load(t, v);
    }

    /// Load Byte Unsigned, through the load delay slot.
    fn op_lbu<D: Debugger>(&mut self, instruction: Instruction, debugger: &mut D)
        requires
            old(self).wf(),
        ensures
            final(self).wf(),
            final(self)@ == ({
                let addr = add32(old(self)@.regs[instruction.s() as int], instruction.imm_se());
                v_chain_load(
                    old(self)@,
                    instruction.t(),
                    byte_at(old(self)@.inter.ram, addr) as u32,
                )
            }),
    {
        let i = instruction.imm_se();
        let t = instruction.t();
        let s = instruction.s();
        let addr = self.reg(s).wrapping_add(i);
        let b = self.load8(addr, debugger);
        self.chain_load(t, b as u32);
    }

    /// Load Halfword (sign-extended), through the load delay slot; an
    /// unaligned address faults and cancels the load.
    fn op_lh<D: Debugger>(&mut self, instruction: Instruction, debugger: &mut D)
        requires
            old(self).wf(),
        ensures
            final(self).wf(),
            final(self)@ == ({
                let addr = add32(old(self)@.regs[instruction.s() as int], instruction.imm_se());
                if addr % 2 == 0 {
                    v_chain_load(
                        old(self)@,
                        instruction.t(),
                        sign_extend16(half_at(old(self)@.inter.ram, addr)),
                    )
                } else {
                    v_exception(v_land(old(self)@), exception_code(Exception::LoadAddressError))
                }
            }),
    {
        let i = instruction.imm_se();
        let t = instruction.t();
        let s = instruction.s();
        let addr = self.reg(s).wrapping_add(i);
        if addr % 2 == 0 {
            let h = self.load16(addr, debugger);
            let v: u32 = if h < 0x8000 {
                h
            } else {
                h + 0xffff_0000
            };
            self.chain_load(t, v);
        } else {
            self.land_pending();
            self.exception(Exception::LoadAddressError);
        }
    }

    /// Load Halfword Unsigned, through the load delay slot; an unaligned
    /// address faults and cancels the load.
    fn op_lhu<D: Debugger>(&mut self, instruction: Instruction, debugger: &mut D)
        requires
            old(self).wf(),
        ensures
            final(self).wf(),
            final(self)@ == ({
                let addr = add32(old(self)@.regs[instruction.s() as int], instruction.imm_se());
                if addr % 2 == 0 {
                    v_chain_load(old(self)@, instruction.t(), half_at(old(self)@.inter.ram, addr))
                } else {
                    v_exception(v_land(old(self)@), exception_code(Exception::LoadAddressError))
                }
            }),
    {
        let i = instruction.imm_se();
        let t = instruction.t();
        let s = instruction.s();
        let addr = self.reg(s).wrapping_add(i);
        if addr % 2 == 0 {
            let h = self.load16(addr, debugger);
            self.chain_load(t, h);
        } else {
            self.land_pending();
            self.exception(Exception::LoadAddressError);
        }
    }

    /// Load Word, through the load delay slot; an unaligned address
    /// faults and cancels the load.
    fn op_lw<D: Debugger>(&mut self, instruction: Instruction, debugger: &mut D)
        requires
            old(self).wf(),
        ensures
            final(self).wf(),
            final(self)@ == ({
                let addr = add32(old(self)@.regs[instruction.s() as int], instruction.imm_se());
                if addr % 4 == 0 {
                    v_chain_load(old(self)@, instruction.t(), word_at(old(self)@.inter.ram, addr))
                } else {
                    v_exception(v_land(old(self)@), exception_code(Exception::LoadAddressError))
                }
            }),
    {
        let i = instruction.imm_se();
        let t = instruction.t();
        let s = instruction.s();
        let addr = self.reg(s).wrapping_add(i);
        if addr % 4 == 0 {
            let v = self.load32(addr, debugger);
            self.chain_load(t, v);
        } else {
            self.land_pending();
            self.exception(Exception::LoadAddressError);
        }
    }

    /// Load Word Left (little-endian): merges the high bytes of the
    /// addressed word into the register, bypassing the load-delay
    /// restriction so it can combine with a load still in flight.
    fn op_lwl<D: Debugger>(&mut self, instruction: Instruction, debugger: &mut D)
        requires
            old(self).wf(),
        ensures
            final(self).wf(),
            final(self)@ == ({
                let addr = add32(old(self)@.regs[instruction.s() as int], instruction.imm_se());
                let cur = if old(self)@.load.0 == instruction.t() {
                    old(self)@.load.1
                } else {
                    old(self)@.out_regs[instruction.t() as int]
                };
                let word = word_at(old(self)@.inter.ram, (addr / 4 * 4) as u32);
                v_chain_load(old(self)@, instruction.t(), lwl_merge(cur, word, addr % 4))
            }),
    {
        let i = instruction.imm_se();
        let t = instruction.t();
        let s = instruction.s();
        let addr = self.reg(s).wrapping_add(i);
        // This instruction bypasses the load delay restriction: it merges
        // the new contents with the value currently being loaded if need
        // be.
        let (p_reg, p_val) = self.load;
        let cur = if p_reg == t {
            p_val
        } else {
            self.out_regs[t as usize]
        };
        let aligned_addr = addr / 4 * 4;
        let word = self.load32(aligned_addr, debugger);
        let k = addr % 4;
        let v: u32 = if k == 0 {
            (cur & 0x00ff_ffff) | (word << 24u32)
        } else if k == 1 {
            (cur & 0x0000_ffff) | (word << 16u32)
        } else if k == 2 {
            (cur & 0x0000_00ff) | (word << 8u32)
        } else {
            word
        };
        self.chain_load(t, v);
    }

    /// Load Word Right (little-endian): merges the low bytes of the
    /// addressed word into the register, bypassing the load-delay
    /// restriction so it can combine with a load still in flight.
    fn op_lwr<D: Debugger>(&mut self, instruction: Instruction, debugger: &mut D)
        requires
            old(self).wf(),
        ensures
            final(self).wf(),
            final(self)@ == ({
                let addr = add32(old(self)@.regs[instruction.s() as int], instruction.imm_se());
                let cur = if old(self)@.load.0 == instruction.t() {
                    old(self)@.load.1
                } else {
                    old(self)@.out_regs[instruction.t() as int]
                };
                let word = word_at(old(self)@.inter.ram, (addr / 4 * 4) as u32);
                v_chain_load(old(self)@, instruction.t(), lwr_merge(cur, word, addr % 4))
            }),
    {
        let i = instruction.imm_se();
        let t = instruction.t();
        let s = instruction.s();
        let addr = self.reg(s).wrapping_add(i);
        // This instruction bypasses the load delay restriction: it merges
        // the new contents with the value currently being loaded if need
        // be.
        let (p_reg, p_val) = self.load;
        let cur = if p_reg == t {
            p_val
        } else {
            self.out_regs[t as usize]
        };
        let aligned_addr = addr / 4 * 4;
        let word = self.load32(aligned_addr, debugger);
        let k = addr % 4;
        let v: u32 = if k == 0 {
            word
        } else if k == 1 {
            (cur & 0xff00_0000) | (word >> 8u32)
        } else if k == 2 {
            (cur & 0xffff_0000) | (word >> 16u32)
        } else {
            (cur & 0xffff_ff00) | (word >> 24u32)
        };
        self.chain_load(t, v);
    }

    /// Store Byte.
    fn op_sb<D: Debugger>(&mut self, instruction: Instruction, debugger: &mut D) -> (r: Result<
        (),
        Fatal,
    >)
        requires
            old(self).wf(),
        ensures
            final(self).wf(),
            ({
                let addr = add32(old(self)@.regs[instruction.s() as int], instruction.imm_se());
                let val = old(self)@.regs[instruction.t() as int] % 0x100;
                &&& r == store_result(old(self)@, val, AccessWidth::Byte)
                &&& final(self)@ == v_store(v_land(old(self)@), addr, val, AccessWidth::Byte)
            }),
    {
        self.land_pending();
        let i = instruction.imm_se();
        let t = instruction.t();
        let s = instruction.s();
        let addr = self.reg(s).wrapping_add(i);
        let v = self.reg(t);
        self.store(addr, v % 0x100, AccessWidth::Byte, debugger)
    }

    /// Store Halfword; an unaligned address faults and nothing is
    /// written.
    fn op_sh<D: Debugger>(&mut self, instruction: Instruction, debugger: &mut D) -> (r: Result<
        (),
        Fatal,
    >)
        requires
            old(self).wf(),
        ensures
            final(self).wf(),
            ({
                let addr = add32(old(self)@.regs[instruction.s() as int], instruction.imm_se());
                let val = old(self)@.regs[instruction.t() as int] % 0x1_0000;
                if addr % 2 == 0 {
                    &&& r == store_result(old(self)@, val, AccessWidth::HalfWord)
                    &&& final(self)@ == v_store(v_land(old(self)@), addr, val, AccessWidth::HalfWord)
                } else {
                    &&& r is Ok
                    &&& final(self)@ == v_exception(
                        v_land(old(self)@),
                        exception_code(Exception::StoreAddressError),
                    )
                }
            }),
    {
        self.land_pending();
        let i = instruction.imm_se();
        let t = instruction.t();
        let s = instruction.s();
        let addr = self.reg(s).wrapping_add(i);
        let v = self.reg(t);
        if addr % 2 == 0 {
            self.store(addr, v % 0x1_0000, AccessWidth::HalfWord, debugger)
        } else {
            self.exception(Exception::StoreAddressError);
            Ok(())
        }
    }

    /// Store Word; an unaligned address faults and nothing is written.
    fn op_sw<D: Debugger>(&mut self, instruction: Instruction, debugger: &mut D) -> (r: Result<
        (),
        Fatal,
    >)
        requires
            old(self).wf(),
        ensures
            final(self).wf(),
            ({
                let addr = add32(old(self)@.regs[instruction.s() as int], instruction.imm_se());
                let val = old(self)@.regs[instruction.t() as int];
                if addr % 4 == 0 {
                    &&& r == store_result(old(self)@, val, AccessWidth::Word)
                    &&& final(self)@ == v_store(v_land(old(self)@), addr, val, AccessWidth::Word)
                } else {
                    &&& r is Ok
                    &&& final(self)@ == v_exception(
                        v_land(old(self)@),
                        exception_code(Exception::StoreAddressError),
                    )
                }
            }),
    {
        self.land_pending();
        let i = instruction.imm_se();
        let t = instruction.t();
        let s = instruction.s();
        let addr = self.reg(s).wrapping_add(i);
        let v = self.reg(t);
        if addr % 4 == 0 {
            self.store(addr, v, AccessWidth::Word, debugger)
        } else {
            self.exception(Exception::StoreAddressError);
            Ok(())
        }
    }

    /// Store Word Left (little-endian): reads the addressed aligned word,
    /// blends in the high bytes of the register, and writes the merged
    /// word back through the unaligned address.
    fn op_swl<D: Debugger>(&mut self, instruction: Instruction, debugger: &mut D) -> (r: Result<
        (),
        Fatal,
    >)
        requires
            old(self).wf(),
        ensures
            final(self).wf(),
            ({
                let addr = add32(old(self)@.regs[instruction.s() as int], instruction.imm_se());
                let v = old(self)@.regs[instruction.t() as int];
                let mem = word_at(old(self)@.inter.ram, (addr / 4 * 4) as u32);
                let merged = swl_merge(mem, v, addr % 4);
                &&& r == store_result(old(self)@, merged, AccessWidth::Word)
                &&& final(self)@ == v_store(v_land(old(self)@), addr, merged, AccessWidth::Word)
            }),
    {
        self.land_pending();
        let i = instruction.imm_se();
        let t = instruction.t();
        let s = instruction.s();
        let addr = self.reg(s).wrapping_add(i);
        let v = self.reg(t);
        let aligned_addr = addr / 4 * 4;
        let cur_mem = self.load32(aligned_addr, debugger);
        let k = addr % 4;
        let mem: u32 = if k == 0 {
            (cur_mem & 0xffff_ff00) | (v >> 24u32)
        } else if k == 1 {
            (cur_mem & 0xffff_0000) | (v >> 16u32)
        } else if k == 2 {
            (cur_mem & 0xff00_0000) | (v >> 8u32)
        } else {
            v
        };
        self.store(addr, mem, AccessWidth::Word, debugger)
    }

    /// Store Word Right (little-endian): reads the addressed aligned
    /// word, blends in the low bytes of the register, and writes the
    /// merged word back through the unaligned address.
    fn op_swr<D: Debugger>(&mut self, instruction: Instruction, debugger: &mut D) -> (r: Result<
        (),
        Fatal,
    >)
        requires
            old(self).wf(),
        ensures
            final(self).wf(),
            ({
                let addr = add32(old(self)@.regs[instruction.s() as int], instruction.imm_se());
                let v = old(self)@.regs[instruction.t() as int];
                let mem = word_at(old(self)@.inter.ram, (addr / 4 * 4) as u32);
                let merged = swr_merge(mem, v, addr % 4);
                &&& r == store_result(old(self)@, merged, AccessWidth::Word)
                &&& final(self)@ == v_store(v_land(old(self)@), addr, merged, AccessWidth::Word)
            }),
    {
        self.land_pending();
        let i = instruction.imm_se();
        let t = instruction.t();
        let s = instruction.s();
        let addr = self.reg(s).wrapping_add(i);
        let v = self.reg(t);
        let aligned_addr = addr / 4 * 4;
        let cur_mem = self.load32(aligned_addr, debugger);
        let k = addr % 4;
        let mem: u32 = if k == 0 {
            v
        } else if k == 1 {
            (cur_mem & 0x0000_00ff) | (v << 8u32)
        } else if k == 2 {
            (cur_mem & 0x0000_ffff) | (v << 16u32)
        } else {
            (cur_mem & 0x00ff_ffff) | (v << 24u32)
        };
        self.store(addr, mem, AccessWidth::Word, debugger)
    }

    /// Move From Coprocessor 0: a staged load, going through the load
    /// delay slot like a data load. Only SR, Cause, EPC and the
    /// processor identification are readable.
    fn op_mfc0(&mut self, instruction: Instruction) -> (r: Result<(), Fatal>)
        requires
            old(self).wf(),
        ensures
            final(self).wf(),
            ({
                let cop_r = instruction.d();
                if cop_r == 12 {
                    r is Ok && final(self)@ == v_chain_load(
                        old(self)@,
                        instruction.t(),
                        old(self)@.sr,
                    )
                } else if cop_r == 13 {
                    r is Ok && final(self)@ == v_chain_load(
                        old(self)@,
                        instruction.t(),
                        old(self)@.cause,
                    )
                } else if cop_r == 14 {
                    r is Ok && final(self)@ == v_chain_load(
                        old(self)@,
                        instruction.t(),
                        old(self)@.epc,
                    )
                } else if cop_r == 15 {
                    r is Ok && final(self)@ == v_chain_load(old(self)@, instruction.t(), 2)
                } else {
                    r == Err::<(), Fatal>(Fatal::UnhandledCop0Read(cop_r)) && final(self)@ == old(self)@
                }
            }),
    {
        let cpu_r = instruction.t();
        let cop_r = instruction.d();
        let v = if cop_r == 12 {
            self.sr.as_u32()
        } else if cop_r == 13 {
            self.cause
        } else if cop_r == 14 {
            self.epc
        } else if cop_r == 15 {
            // The processor identification register.
            2
        } else {
            return Err(Fatal::UnhandledCop0Read(cop_r));
        };
        self.chain_load(cpu_r, v);
        Ok(())
    }

    /// Move To Coprocessor 0: an immediate write. Only SR is writable;
    /// the breakpoint registers and Cause accept writes of zero alone.
    fn op_mtc0(&mut self, instruction: Instruction) -> (r: Result<(), Fatal>)
        requires
            old(self).wf(),
        ensures
            final(self).wf(),
            ({
                let cop_r = instruction.d();
                let v = old(self)@.regs[instruction.t() as int];
                if cop_r == 3 || cop_r == 5 || cop_r == 6 || cop_r == 7 || cop_r == 9 || cop_r
                    == 11 || cop_r == 13 {
                    if v == 0 {
                        r is Ok && final(self)@ == v_land(old(self)@)
                    } else {
                        r == Err::<(), Fatal>(Fatal::UnhandledCop0Write(cop_r, v)) && final(self)@
                            == v_land(old(self)@)
                    }
                } else if cop_r == 12 {
                    r is Ok && final(self)@ == (CpuView { sr: v, ..v_land(old(self)@) })
                } else {
                    r == Err::<(), Fatal>(Fatal::UnhandledCop0Write(cop_r, v)) && final(self)@
                        == v_land(old(self)@)
                }
            }),
    {
        self.land_pending();
        let cpu_r = instruction.t();
        let cop_r = instruction.d();
        let v = self.reg(cpu_r);
        if cop_r == 3 || cop_r == 5 || cop_r == 6 || cop_r == 7 || cop_r == 9 || cop_r == 11
            || cop_r == 13 {
            // Breakpoint registers, and Cause: only writes of zero are
            // supported.
            if v != 0 {
                return Err(Fatal::UnhandledCop0Write(cop_r, v));
            }
            Ok(())
        } else if cop_r == 12 {
            self.sr = StatusRegister(v);
            proof {
                assert(final(self)@ =~~= (CpuView { sr: v, ..v_land(old(self)@) }));
            }
            Ok(())
        } else {
            Err(Fatal::UnhandledCop0Write(cop_r, v))
        }
    }

    /// Return From Exception: pop the mode stack. Every other encoding
    /// sharing the opcode is a virtual-memory operation the console does
    /// not have.
    fn op_rfe(&mut self, instruction: Instruction) -> (r: Result<(), Fatal>)
        requires
            old(self).wf(),
        ensures
            final(self).wf(),
            ({
                if instruction.0 % 64 == 0b010000 {
                    r is Ok && final(self)@ == (CpuView {
                        sr: return_from_exception_spec(old(self)@.sr),
                        ..v_land(old(self)@)
                    })
                } else {
                    r == Err::<(), Fatal>(Fatal::InvalidCop0Encoding(instruction.0)) && final(self)@ == old(self)@
                }
            }),
    {
        if instruction.subfunction() != 0b010000 {
            return Err(Fatal::InvalidCop0Encoding(instruction.0));
        }
        self.land_pending();
        self.sr.return_from_exception();
        proof {
            assert(final(self)@ =~~= (CpuView {
                sr: return_from_exception_spec(old(self)@.sr),
                ..v_land(old(self)@)
            }));
        }
        Ok(())
    }

    /// Coprocessor 0 opcode: move-from, move-to, or return from
    /// exception.
    fn op_cop0(&mut self, instruction: Instruction) -> (r: Result<(), Fatal>)
        requires
            old(self).wf(),
        ensures
            final(self).wf(),
            ({
                let op = instruction.cop_opcode();
                let cop_r = instruction.d();
                let v = old(self)@.regs[instruction.t() as int];
                if op == 0b00000 {
                    if cop_r == 12 {
                        r is Ok && final(self)@ == v_chain_load(
                            old(self)@,
                            instruction.t(),
                            old(self)@.sr,
                        )
                    } else if cop_r == 13 {
                        r is Ok && final(self)@ == v_chain_load(
                            old(self)@,
                            instruction.t(),
                            old(self)@.cause,
                        )
                    } else if cop_r == 14 {
                        r is Ok && final(self)@ == v_chain_load(
                            old(self)@,
                            instruction.t(),
                            old(self)@.epc,
                        )
                    } else if cop_r == 15 {
                        r is Ok && final(self)@ == v_chain_load(old(self)@, instruction.t(), 2)
                    } else {
                        r == Err::<(), Fatal>(Fatal::UnhandledCop0Read(cop_r)) && final(self)@
                            == old(self)@
                    }
                } else if op == 0b00100 {
                    if cop_r == 3 || cop_r == 5 || cop_r == 6 || cop_r == 7 || cop_r == 9 || cop_r
                        == 11 || cop_r == 13 {
                        if v == 0 {
                            r is Ok && final(self)@ == v_land(old(self)@)
                        } else {
                            r == Err::<(), Fatal>(Fatal::UnhandledCop0Write(cop_r, v)) && final(self)@ == v_land(old(self)@)
                        }
                    } else if cop_r == 12 {
                        r is Ok && final(self)@ == (CpuView { sr: v, ..v_land(old(self)@) })
                    } else {
                        r == Err::<(), Fatal>(Fatal::UnhandledCop0Write(cop_r, v)) && final(self)@
                            == v_land(old(self)@)
                    }
                } else if op == 0b10000 {
                    if instruction.0 % 64 == 0b010000 {
                        r is Ok && final(self)@ == (CpuView {
                            sr: return_from_exception_spec(old(self)@.sr),
                            ..v_land(old(self)@)
                        })
                    } else {
                        r == Err::<(), Fatal>(Fatal::InvalidCop0Encoding(instruction.0)) && final(self)@ == old(self)@
                    }
                } else {
                    r == Err::<(), Fatal>(Fatal::UnhandledCop0Instruction(instruction.0)) && final(self)@ == old(self)@
                }
            }),
    {
        let op = instruction.cop_opcode();
        if op == 0b00000 {
            self.op_mfc0(instruction)
        } else if op == 0b00100 {
            self.op_mtc0(instruction)
        } else if op == 0b10000 {
            self.op_rfe(instruction)
        } else {
            Err(Fatal::UnhandledCop0Instruction(instruction.0))
        }
    }

    /// Coprocessor 1 opcode: the coprocessor does not exist on the
    /// console.
    fn op_cop1(&mut self, instruction: Instruction)
        requires
            old(self).wf(),
        ensures
            final(self).wf(),
            final(self)@ == v_exception(v_land(old(self)@), exception_code(Exception::CoprocessorError)),
    {
        self.land_pending();
        self.exception(Exception::CoprocessorError);
    }

    /// Coprocessor 2, the Geometry Transformation Engine. The move
    /// instructions to and from its register files are handled (the
    /// registers hold their raw values, through the load delay slot on
    /// reads); actual geometry commands are an unimplemented host abort.
    fn op_cop2(&mut self, instruction: Instruction) -> (r: Result<(), Fatal>)
        requires
            old(self).wf(),
        ensures
            final(self).wf(),
            ({
                let op = instruction.cop_opcode();
                let cop_r = instruction.d() as int;
                if op >= 0x10 {
                    r == Err::<(), Fatal>(Fatal::GteInstruction(instruction.0)) && final(self)@
                        == old(self)@
                } else if op == 0b00000 {
                    r is Ok && final(self)@ == v_chain_load(
                        old(self)@,
                        instruction.t(),
                        old(self)@.gte_data[cop_r],
                    )
                } else if op == 0b00010 {
                    r is Ok && final(self)@ == v_chain_load(
                        old(self)@,
                        instruction.t(),
                        old(self)@.gte_control[cop_r],
                    )
                } else if op == 0b00100 {
                    r is Ok && final(self)@ == (CpuView {
                        gte_data: old(self)@.gte_data.update(
                            cop_r,
                            old(self)@.regs[instruction.t() as int],
                        ),
                        ..v_land(old(self)@)
                    })
                } else if op == 0b00110 {
                    r is Ok && final(self)@ == (CpuView {
                        gte_control: old(self)@.gte_control.update(
                            cop_r,
                            old(self)@.regs[instruction.t() as int],
                        ),
                        ..v_land(old(self)@)
                    })
                } else {
                    r == Err::<(), Fatal>(Fatal::GteInstruction(instruction.0)) && final(self)@
                        == old(self)@
                }
            }),
    {
        let op = instruction.cop_opcode();
        if op >= 0x10 {
            // An actual geometry command.
            return Err(Fatal::GteInstruction(instruction.0));
        }
        let cpu_r = instruction.t();
        let cop_r = instruction.d();
        if op == 0b00000 {
            // Move From: staged like a data load.
            let v = self.gte_data[cop_r as usize];
            self.chain_load(cpu_r, v);
            Ok(())
        } else if op == 0b00010 {
            // Move Control From: staged like a data load.
            let v = self.gte_control[cop_r as usize];
            self.chain_load(cpu_r, v);
            Ok(())
        } else if op == 0b00100 {
            // Move To: immediate write.
            self.land_pending();
            let v = self.reg(cpu_r);
            self.gte_data[cop_r as usize] = v;
            proof {
                assert(final(self)@ =~~= (CpuView {
                    gte_data: old(self)@.gte_data.update(
                        cop_r as int,
                        old(self)@.regs[instruction.t() as int],
                    ),
                    ..v_land(old(self)@)
                }));
            }
            Ok(())
        } else if op == 0b00110 {
            // Move Control To: immediate write.
            self.land_pending();
            let v = self.reg(cpu_r);
            self.gte_control[cop_r as usize] = v;
            proof {
                assert(final(self)@ =~~= (CpuView {
                    gte_control: old(self)@.gte_control.update(
                        cop_r as int,
                        old(self)@.regs[instruction.t() as int],
                    ),
                    ..v_land(old(self)@)
                }));
            }
            Ok(())
        } else {
            Err(Fatal::GteInstruction(instruction.0))
        }
    }

    /// Coprocessor 3 opcode: the coprocessor does not exist on the
    /// console.
    fn op_cop3(&mut self, instruction: Instruction)
        requires
            old(self).wf(),
        ensures
            final(self).wf(),
            final(self)@ == v_exception(v_land(old(self)@), exception_code(Exception::CoprocessorError)),
    {
        self.land_pending();
        self.exception(Exception::CoprocessorError);
    }

    /// Load Word in Coprocessor 0: not supported by this coprocessor.
    fn op_lwc0(&mut self, instruction: Instruction)
        requires
            old(self).wf(),
        ensures
            final(self).wf(),
            final(self)@ == v_exception(v_land(old(self)@), exception_code(Exception::CoprocessorError)),
    {
        self.land_pending();
        self.exception(Exception::CoprocessorError);
    }

    /// Load Word in Coprocessor 1: not supported by this coprocessor.
    fn op_lwc1(&mut self, instruction: Instruction)
        requires
            old(self).wf(),
        ensures
            final(self).wf(),
            final(self)@ == v_exception(v_land(old(self)@), exception_code(Exception::CoprocessorError)),
    {
        self.land_pending();
        self.exception(Exception::CoprocessorError);
    }

    /// Load Word in Coprocessor 2: a Geometry Transformation Engine
    /// transfer the core does not implement.
    fn op_lwc2(&mut self, instruction: Instruction) -> (r: Result<(), Fatal>)
        requires
            old(self).wf(),
        ensures
            final(self).wf(),
            r == Err::<(), Fatal>(Fatal::GteLoad(instruction.0)),
            final(self)@ == old(self)@,
    {
        Err(Fatal::GteLoad(instruction.0))
    }

    /// Load Word in Coprocessor 3: not supported by this coprocessor.
    fn op_lwc3(&mut self, instruction: Instruction)
        requires
            old(self).wf(),
        ensures
            final(self).wf(),
            final(self)@ == v_exception(v_land(old(self)@), exception_code(Exception::CoprocessorError)),
    {
        self.land_pending();
        self.exception(Exception::CoprocessorError);
    }

    /// Store Word in Coprocessor 0: not supported by this coprocessor.
    fn op_swc0(&mut self, instruction: Instruction)
        requires
            old(self).wf(),
        ensures
            final(self).wf(),
            final(self)@ == v_exception(v_land(old(self)@), exception_code(Exception::CoprocessorError)),
    {
        self.land_pending();
        self.exception(Exception::CoprocessorError);
    }

    /// Store Word in Coprocessor 1: not supported by this coprocessor.
    fn op_swc1(&mut self, instruction: Instruction)
        requires
            old(self).wf(),
        ensures
            final(self).wf(),
            final(self)@ == v_exception(v_land(old(self)@), exception_code(Exception::CoprocessorError)),
    {
        self.land_pending();
        self.exception(Exception::CoprocessorError);
    }

    /// Store Word in Coprocessor 2: a Geometry Transformation Engine
    /// transfer the core does not implement.
    fn op_swc2(&mut self, instruction: Instruction) -> (r: Result<(), Fatal>)
        requires
            old(self).wf(),
        ensures
            final(self).wf(),
            r == Err::<(), Fatal>(Fatal::GteStore(instruction.0)),
            final(self)@ == old(self)@,
    {
        Err(Fatal::GteStore(instruction.0))
    }

    /// Store Word in Coprocessor 3: not supported by this coprocessor.
    fn op_swc3(&mut self, instruction: Instruction)
        requires
            old(self).wf(),
        ensures
            final(self).wf(),
            final(self)@ == v_exception(v_land(old(self)@), exception_code(Exception::CoprocessorError)),
    {
        self.land_pending();
        self.exception(Exception::CoprocessorError);
    }

    /// Fetch the instruction at `current_pc` through the instruction
    /// cache. KSEG1 fetches and fetches with the cache disabled go
    /// straight to memory for 4 cycles; a cache hit is free; a miss pays
    /// 3 cycles plus 1 per word and refills the line from the missed word
    /// to its end.
    fn fetch_instruction(&mut self) -> (r: Instruction)
        requires
            old(self).wf(),
            old(self)@.current_pc % 4 == 0,
            old(self)@.tk.now + 7 <= u64::MAX,
        ensures
            final(self).wf(),
            final(self)@ == fetch_spec(old(self)@).0,
            r.0 == fetch_spec(old(self)@).1,
    {
        let pc = self.current_pc;
        let cc = self.inter.cache_control();
        // The KSEG1 region is never cached.
        let in_kseg1 = pc / 0x2000_0000 == 5;
        if !in_kseg1 && cc.icache_enabled() {
            // Cache tag: bits [31:12].
            let tag = pc & 0xffff_f000;
            // Cache line "bucket": bits [11:4].
            let line_idx = (pc / 16 % 256) as usize;
            // Index of the addressed word in the cache line: bits [3:2].
            let index = pc / 4 % 4;
            let mut line = self.icache[line_idx];
            if line.tag() != tag || line.valid_index() > index {
                // Cache miss: fetch the line starting at the addressed
                // word; with a non-zero index the earlier words remain
                // invalid. Fetching takes 3 cycles plus 1 per word.
                self.tk.tick(3);
                let ghost entry = old(self)@;
                let base = pc / 16 * 16;
                proof {
                    assert(pc / 16 * 16 + 4 * (pc / 4 % 4) == pc / 4 * 4) by (nonlinear_arith);
                }
                let mut cpc = pc;
                let mut i = index;
                while i < 4
                    invariant
                        index <= i <= 4,
                        index == pc / 4 % 4,
                        pc % 4 == 0,
                        base == pc / 16 * 16,
                        i < 4 ==> cpc == base + 4 * i,
                        pc == base + 4 * index,
                        self.wf(),
                        self@ == (CpuView { tk: ticked(entry.tk, (3 + i - index) as u64), ..entry }),
                        entry.tk.now + 7 <= u64::MAX,
                        entry.current_pc == pc,
                        line@.tag_valid == entry.icache[(pc / 16 % 256) as int].tag_valid,
                        line@.words == Seq::new(
                            4,
                            |j: int|
                                if index <= j < i {
                                    word_at(entry.inter.ram, (base + 4 * j) as u32)
                                } else {
                                    entry.icache[(pc / 16 % 256) as int].words[j]
                                },
                        ),
                    decreases 4 - i,
                {
                    self.tk.tick(1);
                    let instruction = Instruction(self.inter.load_instruction(cpc));
                    line.set_instruction(i, instruction);
                    proof {
                        assert(line@.words =~= Seq::new(
                            4,
                            |j: int|
                                if index <= j < i + 1 {
                                    word_at(entry.inter.ram, (base + 4 * j) as u32)
                                } else {
                                    entry.icache[(pc / 16 % 256) as int].words[j]
                                },
                        ));
                    }
                    cpc = cpc.wrapping_add(4);
                    i = i + 1;
                }
                // Mark the line valid from the missed word onward.
                line.set_tag_valid(pc);
                self.icache[line_idx] = line;
                proof {
                    assert(line@.words =~= refilled_line(
                        entry.icache[(pc / 16 % 256) as int],
                        entry.inter.ram,
                        pc,
                    ).words);
                    assert(final(self)@ =~~= (CpuView {
                        tk: ticked(entry.tk, (7 - pc / 4 % 4) as u64),
                        icache: entry.icache.update(
                            (pc / 16 % 256) as int,
                            refilled_line(
                                entry.icache[(pc / 16 % 256) as int],
                                entry.inter.ram,
                                pc,
                            ),
                        ),
                        ..entry
                    }));
                }
                line.instruction(index)
            } else {
                // The line is valid for this address: serve the cached
                // word.
                line.instruction(index)
            }
        } else {
            // Cache disabled or uncacheable region: fetch directly from
            // memory, which takes 4 cycles.
            self.tk.tick(4);
            let r = Instruction(self.inter.load_instruction(pc));
            proof {
                assert(final(self)@ =~~= (CpuView { tk: ticked(old(self)@.tk, 4), ..old(self)@ }));
            }
            r
        }
    }

    /// Decode and run a register-to-register instruction (primary
    /// opcode 0) through the subfunction table.
    #[verifier::rlimit(100)]
    fn decode_special(&mut self, instruction: Instruction) -> (r: Result<(), Fatal>)
        requires
            old(self).wf(),
            instruction.spec_function() == 0,
            !old(self)@.branch,
            old(self)@.next_pc == add32(old(self)@.pc, 4),
        ensures
            final(self).wf(),
            final(self)@.tk == old(self)@.tk,
            final(self)@.branch || final(self)@.next_pc == add32(final(self)@.pc, 4),
            final(self)@.current_pc == old(self)@.current_pc,
            final(self)@.delay_slot == old(self)@.delay_slot,
            final(self)@ == special_spec(old(self)@, instruction).0,
            r == special_spec(old(self)@, instruction).1,
    {
        let sub = instruction.subfunction();
        let r = if sub == 0b000000 {
            self.op_sll(instruction);
            proof {
                assert(self@ =~~= special_spec(old(self)@, instruction).0);
                assert(special_spec(old(self)@, instruction).1 == Ok::<(), Fatal>(()));
            }
            Ok(())
        } else if sub == 0b000010 {
            self.op_srl(instruction);
            proof {
                assert(self@ =~~= special_spec(old(self)@, instruction).0);
                assert(special_spec(old(self)@, instruction).1 == Ok::<(), Fatal>(()));
            }
            Ok(())
        } else if sub == 0b000011 {
            self.op_sra(instruction);
            proof {
                assert(self@ =~~= special_spec(old(self)@, instruction).0);
                assert(special_spec(old(self)@, instruction).1 == Ok::<(), Fatal>(()));
            }
            Ok(())
        } else if sub == 0b000100 {
            self.op_sllv(instruction);
            proof {
                assert(self@ =~~= special_spec(old(self)@, instruction).0);
                assert(special_spec(old(self)@, instruction).1 == Ok::<(), Fatal>(()));
            }
            Ok(())
        } else if sub == 0b000110 {
            self.op_srlv(instruction);
            proof {
                assert(self@ =~~= special_spec(old(self)@, instruction).0);
                assert(special_spec(old(self)@, instruction).1 == Ok::<(), Fatal>(()));
            }
            Ok(())
        } else if sub == 0b000111 {
            self.op_srav(instruction);
            proof {
                assert(self@ =~~= special_spec(old(self)@, instruction).0);
                assert(special_spec(old(self)@, instruction).1 == Ok::<(), Fatal>(()));
            }
            Ok(())
        } else if sub == 0b001000 {
            self.op_jr(instruction);
            proof {
                assert(self@ =~~= special_spec(old(self)@, instruction).0);
                assert(special_spec(old(self)@, instruction).1 == Ok::<(), Fatal>(()));
            }
            Ok(())
        } else if sub == 0b001001 {
            self.op_jalr(instruction);
            proof {
                assert(self@ =~~= special_spec(old(self)@, instruction).0);
                assert(special_spec(old(self)@, instruction).1 == Ok::<(), Fatal>(()));
            }
            Ok(())
        } else if sub == 0b001100 {
            self.op_syscall(instruction);
            proof {
                assert(self@ =~~= special_spec(old(self)@, instruction).0);
                assert(special_spec(old(self)@, instruction).1 == Ok::<(), Fatal>(()));
            }
            Ok(())
        } else if sub == 0b001101 {
            self.op_break(instruction);
            proof {
                assert(self@ =~~= special_spec(old(self)@, instruction).0);
                assert(special_spec(old(self)@, instruction).1 == Ok::<(), Fatal>(()));
            }
            Ok(())
        } else if sub == 0b010000 {
            self.op_mfhi(instruction);
            proof {
                assert(self@ =~~= special_spec(old(self)@, instruction).0);
                assert(special_spec(old(self)@, instruction).1 == Ok::<(), Fatal>(()));
            }
            Ok(())
        } else if sub == 0b010001 {
            self.op_mthi(instruction);
            proof {
                assert(self@ =~~= special_spec(old(self)@, instruction).0);
                assert(special_spec(old(self)@, instruction).1 == Ok::<(), Fatal>(()));
            }
            Ok(())
        } else if sub == 0b010010 {
            self.op_mflo(instruction);
            proof {
                assert(self@ =~~= special_spec(old(self)@, instruction).0);
                assert(special_spec(old(self)@, instruction).1 == Ok::<(), Fatal>(()));
            }
            Ok(())
        } else if sub == 0b010011 {
            self.op_mtlo(instruction);
            proof {
                assert(self@ =~~= special_spec(old(self)@, instruction).0);
                assert(special_spec(old(self)@, instruction).1 == Ok::<(), Fatal>(()));
            }
            Ok(())
        } else if sub == 0b011000 {
            self.op_mult(instruction);
            proof {
                assert(self@ =~~= special_spec(old(self)@, instruction).0);
                assert(special_spec(old(self)@, instruction).1 == Ok::<(), Fatal>(()));
            }
            Ok(())
        } else if sub == 0b011001 {
            self.op_multu(instruction);
            proof {
                assert(self@ =~~= special_spec(old(self)@, instruction).0);
                assert(special_spec(old(self)@, instruction).1 == Ok::<(), Fatal>(()));
            }
            Ok(())
        } else if sub == 0b011010 {
            self.op_div(instruction);
            proof {
                assert(self@ =~~= special_spec(old(self)@, instruction).0);
                assert(special_spec(old(self)@, instruction).1 == Ok::<(), Fatal>(()));
            }
            Ok(())
        } else if sub == 0b011011 {
            self.op_divu(instruction);
            proof {
                assert(self@ =~~= special_spec(old(self)@, instruction).0);
                assert(special_spec(old(self)@, instruction).1 == Ok::<(), Fatal>(()));
            }
            Ok(())
        } else if sub == 0b100000 {
            self.op_add(instruction);
            proof {
                assert(self@ =~~= special_spec(old(self)@, instruction).0);
                assert(special_spec(old(self)@, instruction).1 == Ok::<(), Fatal>(()));
            }
            Ok(())
        } else if sub == 0b100001 {
            self.op_addu(instruction);
            proof {
                assert(self@ =~~= special_spec(old(self)@, instruction).0);
                assert(special_spec(old(self)@, instruction).1 == Ok::<(), Fatal>(()));
            }
            Ok(())
        } else if sub == 0b100010 {
            self.op_sub(instruction);
            proof {
                assert(self@ =~~= special_spec(old(self)@, instruction).0);
                assert(special_spec(old(self)@, instruction).1 == Ok::<(), Fatal>(()));
            }
            Ok(())
        } else if sub == 0b100011 {
            self.op_subu(instruction);
            proof {
                assert(self@ =~~= special_spec(old(self)@, instruction).0);
                assert(special_spec(old(self)@, instruction).1 == Ok::<(), Fatal>(()));
            }
            Ok(())
        } else if sub == 0b100100 {
            self.op_and(instruction);
            proof {
                assert(self@ =~~= special_spec(old(self)@, instruction).0);
                assert(special_spec(old(self)@, instruction).1 == Ok::<(), Fatal>(()));
            }
            Ok(())
        } else if sub == 0b100101 {
            self.op_or(instruction);
            proof {
                assert(self@ =~~= special_spec(old(self)@, instruction).0);
                assert(special_spec(old(self)@, instruction).1 == Ok::<(), Fatal>(()));
            }
            Ok(())
        } else if sub == 0b100110 {
            self.op_xor(instruction);
            proof {
                assert(self@ =~~= special_spec(old(self)@, instruction).0);
                assert(special_spec(old(self)@, instruction).1 == Ok::<(), Fatal>(()));
            }
            Ok(())
        } else if sub == 0b100111 {
            self.op_nor(instruction);
            proof {
                assert(self@ =~~= special_spec(old(self)@, instruction).0);
                assert(special_spec(old(self)@, instruction).1 == Ok::<(), Fatal>(()));
            }
            Ok(())
        } else if sub == 0b101010 {
            self.op_slt(instruction);
            proof {
                assert(self@ =~~= special_spec(old(self)@, instruction).0);
                assert(special_spec(old(self)@, instruction).1 == Ok::<(), Fatal>(()));
            }
            Ok(())
        } else if sub == 0b101011 {
            self.op_sltu(instruction);
            proof {
                assert(self@ =~~= special_spec(old(self)@, instruction).0);
                assert(special_spec(old(self)@, instruction).1 == Ok::<(), Fatal>(()));
            }
            Ok(())
        } else {
            self.op_illegal(instruction);
            proof {
                assert(self@ =~~= special_spec(old(self)@, instruction).0);
                assert(special_spec(old(self)@, instruction).1 == Ok::<(), Fatal>(()));
            }
            Ok(())
        };
        r
    }

    /// Decode and run a memory-side instruction: the loads, the stores,
    /// and the coprocessor word transfers.
    #[verifier::rlimit(100)]
    fn decode_memory<D: Debugger>(
        &mut self,
        instruction: Instruction,
        debugger: &mut D,
    ) -> (r: Result<(), Fatal>)
        requires
            old(self).wf(),
            instruction.spec_function() >= 0b100000,
            !old(self)@.branch,
            old(self)@.next_pc == add32(old(self)@.pc, 4),
        ensures
            final(self).wf(),
            final(self)@.tk == old(self)@.tk,
            final(self)@.branch || final(self)@.next_pc == add32(final(self)@.pc, 4),
            final(self)@.current_pc == old(self)@.current_pc,
            final(self)@.delay_slot == old(self)@.delay_slot,
            final(self)@ == dispatch_spec(old(self)@, instruction).0,
            r == dispatch_spec(old(self)@, instruction).1,
    {
        let function = instruction.function();
        let r = if function == 0b100000 {
            self.op_lb(instruction, debugger);
            proof {
                assert(self@ =~~= dispatch_spec(old(self)@, instruction).0);
                assert(dispatch_spec(old(self)@, instruction).1 == Ok::<(), Fatal>(()));
            }
            Ok(())
        } else if function == 0b100001 {
            self.op_lh(instruction, debugger);
            proof {
                assert(self@ =~~= dispatch_spec(old(self)@, instruction).0);
                assert(dispatch_spec(old(self)@, instruction).1 == Ok::<(), Fatal>(()));
            }
            Ok(())
        } else if function == 0b100010 {
            self.op_lwl(instruction, debugger);
            proof {
                assert(self@ =~~= dispatch_spec(old(self)@, instruction).0);
                assert(dispatch_spec(old(self)@, instruction).1 == Ok::<(), Fatal>(()));
            }
            Ok(())
        } else if function == 0b100011 {
            self.op_lw(instruction, debugger);
            proof {
                assert(self@ =~~= dispatch_spec(old(self)@, instruction).0);
                assert(dispatch_spec(old(self)@, instruction).1 == Ok::<(), Fatal>(()));
            }
            Ok(())
        } else if function == 0b100100 {
            self.op_lbu(instruction, debugger);
            proof {
                assert(self@ =~~= dispatch_spec(old(self)@, instruction).0);
                assert(dispatch_spec(old(self)@, instruction).1 == Ok::<(), Fatal>(()));
            }
            Ok(())
        } else if function == 0b100101 {
            self.op_lhu(instruction, debugger);
            proof {
                assert(self@ =~~= dispatch_spec(old(self)@, instruction).0);
                assert(dispatch_spec(old(self)@, instruction).1 == Ok::<(), Fatal>(()));
            }
            Ok(())
        } else if function == 0b100110 {
            self.op_lwr(instruction, debugger);
            proof {
                assert(self@ =~~= dispatch_spec(old(self)@, instruction).0);
                assert(dispatch_spec(old(self)@, instruction).1 == Ok::<(), Fatal>(()));
            }
            Ok(())
        } else if function == 0b101000 {
            let r1 = self.op_sb(instruction, debugger);
            proof {
                assert(self@ =~~= dispatch_spec(old(self)@, instruction).0);
                let spec_r = dispatch_spec(old(self)@, instruction).1;
                match r1 {
                    Ok(u) => {
                        assert(spec_r is Ok);
                        assert(r1 == spec_r);
                    },
                    Err(e) => {
                        assert(spec_r is Err);
                        assert(r1 == spec_r);
                    },
                }
            }
            r1
        } else if function == 0b101001 {
            let r1 = self.op_sh(instruction, debugger);
            proof {
                assert(self@ =~~= dispatch_spec(old(self)@, instruction).0);
                let spec_r = dispatch_spec(old(self)@, instruction).1;
                match r1 {
                    Ok(u) => {
                        assert(spec_r is Ok);
                        assert(r1 == spec_r);
                    },
                    Err(e) => {
                        assert(spec_r is Err);
                        assert(r1 == spec_r);
                    },
                }
            }
            r1
        } else if function == 0b101010 {
            let r1 = self.op_swl(instruction, debugger);
            proof {
                assert(self@ =~~= dispatch_spec(old(self)@, instruction).0);
                let spec_r = dispatch_spec(old(self)@, instruction).1;
                match r1 {
                    Ok(u) => {
                        assert(spec_r is Ok);
                        assert(r1 == spec_r);
                    },
                    Err(e) => {
                        assert(spec_r is Err);
                        assert(r1 == spec_r);
                    },
                }
            }
            r1
        } else if function == 0b101011 {
            let r1 = self.op_sw(instruction, debugger);
            proof {
                assert(self@ =~~= dispatch_spec(old(self)@, instruction).0);
                let spec_r = dispatch_spec(old(self)@, instruction).1;
                match r1 {
                    Ok(u) => {
                        assert(spec_r is Ok);
                        assert(r1 == spec_r);
                    },
                    Err(e) => {
                        assert(spec_r is Err);
                        assert(r1 == spec_r);
                    },
                }
            }
            r1
        } else if function == 0b101110 {
            let r1 = self.op_swr(instruction, debugger);
            proof {
                assert(self@ =~~= dispatch_spec(old(self)@, instruction).0);
                let spec_r = dispatch_spec(old(self)@, instruction).1;
                match r1 {
                    Ok(u) => {
                        assert(spec_r is Ok);
                        assert(r1 == spec_r);
                    },
                    Err(e) => {
                        assert(spec_r is Err);
                        assert(r1 == spec_r);
                    },
                }
            }
            r1
        } else if function == 0b110000 {
            self.op_lwc0(instruction);
            proof {
                assert(self@ =~~= dispatch_spec(old(self)@, instruction).0);
                assert(dispatch_spec(old(self)@, instruction).1 == Ok::<(), Fatal>(()));
            }
            Ok(())
        } else if function == 0b110001 {
            self.op_lwc1(instruction);
            proof {
                assert(self@ =~~= dispatch_spec(old(self)@, instruction).0);
                assert(dispatch_spec(old(self)@, instruction).1 == Ok::<(), Fatal>(()));
            }
            Ok(())
        } else if function == 0b110010 {
            let r1 = self.op_lwc2(instruction);
            proof {
                assert(self@ =~~= dispatch_spec(old(self)@, instruction).0);
                let spec_r = dispatch_spec(old(self)@, instruction).1;
                match r1 {
                    Ok(u) => {
                        assert(spec_r is Ok);
                        assert(r1 == spec_r);
                    },
                    Err(e) => {
                        assert(spec_r is Err);
                        assert(r1 == spec_r);
                    },
                }
            }
            r1
        } else if function == 0b110011 {
            self.op_lwc3(instruction);
            proof {
                assert(self@ =~~= dispatch_spec(old(self)@, instruction).0);
                assert(dispatch_spec(old(self)@, instruction).1 == Ok::<(), Fatal>(()));
            }
            Ok(())
        } else if function == 0b111000 {
            self.op_swc0(instruction);
            proof {
                assert(self@ =~~= dispatch_spec(old(self)@, instruction).0);
                assert(dispatch_spec(old(self)@, instruction).1 == Ok::<(), Fatal>(()));
            }
            Ok(())
        } else if function == 0b111001 {
            self.op_swc1(instruction);
            proof {
                assert(self@ =~~= dispatch_spec(old(self)@, instruction).0);
                assert(dispatch_spec(old(self)@, instruction).1 == Ok::<(), Fatal>(()));
            }
            Ok(())
        } else if function == 0b111010 {
            let r1 = self.op_swc2(instruction);
            proof {
                assert(self@ =~~= dispatch_spec(old(self)@, instruction).0);
                let spec_r = dispatch_spec(old(self)@, instruction).1;
                match r1 {
                    Ok(u) => {
                        assert(spec_r is Ok);
                        assert(r1 == spec_r);
                    },
                    Err(e) => {
                        assert(spec_r is Err);
                        assert(r1 == spec_r);
                    },
                }
            }
            r1
        } else if function == 0b111011 {
            self.op_swc3(instruction);
            proof {
                assert(self@ =~~= dispatch_spec(old(self)@, instruction).0);
                assert(dispatch_spec(old(self)@, instruction).1 == Ok::<(), Fatal>(()));
            }
            Ok(())
        } else {
            self.op_illegal(instruction);
            proof {
                assert(self@ =~~= dispatch_spec(old(self)@, instruction).0);
                assert(dispatch_spec(old(self)@, instruction).1 == Ok::<(), Fatal>(()));
            }
            Ok(())
        };
        r
    }

    /// Decode `instruction` and run it, charging one cycle. Called with a
    /// clean branch state (the flag rotated into `delay_slot`, `next_pc`
    /// one word past `pc`); afterwards either a branch is pending or the
    /// program counters are still in step.
    #[verifier::rlimit(100)]
    fn decode_and_execute<D: Debugger>(
        &mut self,
        instruction: Instruction,
        debugger: &mut D,
    ) -> (r: Result<(), Fatal>)
        requires
            old(self).wf(),
            old(self)@.tk.now + 1 <= u64::MAX,
            !old(self)@.branch,
            old(self)@.next_pc == add32(old(self)@.pc, 4),
        ensures
            final(self).wf(),
            final(self)@.tk.now == old(self)@.tk.now + 1,
            final(self)@.branch || final(self)@.next_pc == add32(final(self)@.pc, 4),
            final(self)@.current_pc == old(self)@.current_pc,
            final(self)@.delay_slot == old(self)@.delay_slot,
            final(self)@ == exec_spec(old(self)@, instruction).0,
            r == exec_spec(old(self)@, instruction).1,
    {
        // Charge the instruction's execution time.
        self.tk.tick(1);
        proof {
            assert(self@ =~~= (CpuView { tk: ticked(old(self)@.tk, 1), ..old(self)@ }));
        }
        let function = instruction.function();
        let r = if function == 0b000000 {
            let r1 = self.decode_special(instruction);
            proof {
                assert(self@ =~~= exec_spec(old(self)@, instruction).0);
                let spec_r = exec_spec(old(self)@, instruction).1;
                match r1 {
                    Ok(u) => {
                        assert(spec_r is Ok);
                        assert(r1 == spec_r);
                    },
                    Err(e) => {
                        assert(spec_r is Err);
                        assert(r1 == spec_r);
                    },
                }
            }
            r1
        } else if function == 0b000001 {
            self.op_bxx(instruction);
            proof {
                assert(self@ =~~= exec_spec(old(self)@, instruction).0);
                assert(exec_spec(old(self)@, instruction).1 == Ok::<(), Fatal>(()));
            }
            Ok(())
        } else if function == 0b000010 {
            self.op_j(instruction);
            proof {
                assert(self@ =~~= exec_spec(old(self)@, instruction).0);
                assert(exec_spec(old(self)@, instruction).1 == Ok::<(), Fatal>(()));
            }
            Ok(())
        } else if function == 0b000011 {
            self.op_jal(instruction);
            proof {
                assert(self@ =~~= exec_spec(old(self)@, instruction).0);
                assert(exec_spec(old(self)@, instruction).1 == Ok::<(), Fatal>(()));
            }
            Ok(())
        } else if function == 0b000100 {
            self.op_beq(instruction);
            proof {
                assert(self@ =~~= exec_spec(old(self)@, instruction).0);
                assert(exec_spec(old(self)@, instruction).1 == Ok::<(), Fatal>(()));
            }
            Ok(())
        } else if function == 0b000101 {
            self.op_bne(instruction);
            proof {
                assert(self@ =~~= exec_spec(old(self)@, instruction).0);
                assert(exec_spec(old(self)@, instruction).1 == Ok::<(), Fatal>(()));
            }
            Ok(())
        } else if function == 0b000110 {
            self.op_blez(instruction);
            proof {
                assert(self@ =~~= exec_spec(old(self)@, instruction).0);
                assert(exec_spec(old(self)@, instruction).1 == Ok::<(), Fatal>(()));
            }
            Ok(())
        } else if function == 0b000111 {
            self.op_bgtz(instruction);
            proof {
                assert(self@ =~~= exec_spec(old(self)@, instruction).0);
                assert(exec_spec(old(self)@, instruction).1 == Ok::<(), Fatal>(()));
            }
            Ok(())
        } else if function == 0b001000 {
            self.op_addi(instruction);
            proof {
                assert(self@ =~~= exec_spec(old(self)@, instruction).0);
                assert(exec_spec(old(self)@, instruction).1 == Ok::<(), Fatal>(()));
            }
            Ok(())
        } else if function == 0b001001 {
            self.op_addiu(instruction);
            proof {
                assert(self@ =~~= exec_spec(old(self)@, instruction).0);
                assert(exec_spec(old(self)@, instruction).1 == Ok::<(), Fatal>(()));
            }
            Ok(())
        } else if function == 0b001010 {
            self.op_slti(instruction);
            proof {
                assert(self@ =~~= exec_spec(old(self)@, instruction).0);
                assert(exec_spec(old(self)@, instruction).1 == Ok::<(), Fatal>(()));
            }
            Ok(())
        } else if function == 0b001011 {
            self.op_sltiu(instruction);
            proof {
                assert(self@ =~~= exec_spec(old(self)@, instruction).0);
                assert(exec_spec(old(self)@, instruction).1 == Ok::<(), Fatal>(()));
            }
            Ok(())
        } else if function == 0b001100 {
            self.op_andi(instruction);
            proof {
                assert(self@ =~~= exec_spec(old(self)@, instruction).0);
                assert(exec_spec(old(self)@, instruction).1 == Ok::<(), Fatal>(()));
            }
            Ok(())
        } else if function == 0b001101 {
            self.op_ori(instruction);
            proof {
                assert(self@ =~~= exec_spec(old(self)@, instruction).0);
                assert(exec_spec(old(self)@, instruction).1 == Ok::<(), Fatal>(()));
            }
            Ok(())
        } else if function == 0b001110 {
            self.op_xori(instruction);
            proof {
                assert(self@ =~~= exec_spec(old(self)@, instruction).0);
                assert(exec_spec(old(self)@, instruction).1 == Ok::<(), Fatal>(()));
            }
            Ok(())
        } else if function == 0b001111 {
            self.op_lui(instruction);
            proof {
                assert(self@ =~~= exec_spec(old(self)@, instruction).0);
                assert(exec_spec(old(self)@, instruction).1 == Ok::<(), Fatal>(()));
            }
            Ok(())
        } else if function == 0b010000 {
            let r1 = self.op_cop0(instruction);
            proof {
                assert(self@ =~~= exec_spec(old(self)@, instruction).0);
                let spec_r = exec_spec(old(self)@, instruction).1;
                match r1 {
                    Ok(u) => {
                        assert(spec_r is Ok);
                        assert(r1 == spec_r);
                    },
                    Err(e) => {
                        assert(spec_r is Err);
                        assert(r1 == spec_r);
                    },
                }
            }
            r1
        } else if function == 0b010001 {
            self.op_cop1(instruction);
            proof {
                assert(self@ =~~= exec_spec(old(self)@, instruction).0);
                assert(exec_spec(old(self)@, instruction).1 == Ok::<(), Fatal>(()));
            }
            Ok(())
        } else if function == 0b010010 {
            let r1 = self.op_cop2(instruction);
            proof {
                assert(self@ =~~= exec_spec(old(self)@, instruction).0);
                let spec_r = exec_spec(old(self)@, instruction).1;
                match r1 {
                    Ok(u) => {
                        assert(spec_r is Ok);
                        assert(r1 == spec_r);
                    },
                    Err(e) => {
                        assert(spec_r is Err);
                        assert(r1 == spec_r);
                    },
                }
            }
            r1
        } else if function == 0b010011 {
            self.op_cop3(instruction);
            proof {
                assert(self@ =~~= exec_spec(old(self)@, instruction).0);
                assert(exec_spec(old(self)@, instruction).1 == Ok::<(), Fatal>(()));
            }
            Ok(())
        } else if function >= 0b100000 {
            let r1 = self.decode_memory(instruction, debugger);
            proof {
                assert(self@ =~~= exec_spec(old(self)@, instruction).0);
                let spec_r = exec_spec(old(self)@, instruction).1;
                match r1 {
                    Ok(u) => {
                        assert(spec_r is Ok);
                        assert(r1 == spec_r);
                    },
                    Err(e) => {
                        assert(spec_r is Err);
                        assert(r1 == spec_r);
                    },
                }
            }
            r1
        } else {
            self.op_illegal(instruction);
            proof {
                assert(self@ =~~= exec_spec(old(self)@, instruction).0);
                assert(exec_spec(old(self)@, instruction).1 == Ok::<(), Fatal>(()));
            }
            Ok(())
        };
        r
    }

    /// Run a single instruction: snapshot the PC, check its alignment,
    /// fetch through the cache, advance the PC pair, rotate the branch
    /// flag into the delay-slot flag, execute (each instruction lands or
    /// chains the pending load itself), and commit the output
    /// registers.
    ///
    /// Register 0 still reads zero afterwards; the snapshot of the
    /// executed address is visible; after the step either a branch is
    /// pending or the program counters are one word apart; a misaligned
    /// PC raises the address-error exception before anything else runs
    /// (and is the only way this step leaves the cycle counter
    /// untouched).
    pub fn run_next_instruction<D: Debugger>(&mut self, debugger: &mut D) -> (r: Result<(), Fatal>)
        requires
            old(self).wf(),
            old(self)@.tk.now + 8 <= u64::MAX,
        ensures
            final(self).wf(),
            final(self)@.regs[0] == 0,
            final(self)@.out_regs[0] == 0,
            final(self)@.current_pc == old(self)@.pc,
            final(self)@.branch || final(self)@.next_pc == add32(final(self)@.pc, 4),
            old(self)@.pc % 4 != 0 ==> r is Ok && final(self)@ == v_exception(
                CpuView { current_pc: old(self)@.pc, ..old(self)@ },
                exception_code(Exception::LoadAddressError),
            ),
            old(self)@.pc % 4 == 0 ==> final(self)@.tk.now > old(self)@.tk.now,
            old(self)@.pc % 4 == 0 && r is Ok ==> final(self)@.regs == final(self)@.out_regs,
            old(self)@.pc % 4 == 0 ==> final(self)@.delay_slot == old(self)@.branch,
            final(self)@ == step_spec(old(self)@).0,
            r == step_spec(old(self)@).1,
    {
        // Save the address of the current instruction, for EPC in case
        // of an exception.
        self.current_pc = self.pc;
        // Debugger entry point, used for code breakpoints and stepping.
        debugger.pc_change(self.current_pc);
        if self.current_pc % 4 != 0 {
            // PC is not correctly aligned!
            self.exception(Exception::LoadAddressError);
            return Ok(());
        }
        proof {
            assert(self@ =~~= (CpuView { current_pc: old(self)@.pc, ..old(self)@ }));
        }
        // Fetch the instruction at PC.
        let instruction = self.fetch_instruction();
        // Increment PC to point to the next instruction, and `next_pc`
        // to the one after: both can still be modified by the
        // instruction itself.
        self.pc = self.next_pc;
        self.next_pc = self.pc.wrapping_add(4);
        // If the last instruction was a branch, this one is in the delay
        // slot.
        self.delay_slot = self.branch;
        self.branch = false;
        proof {
            let v1 = CpuView { current_pc: old(self)@.pc, ..old(self)@ };
            let v2 = fetch_spec(v1).0;
            assert(self@ =~~= (CpuView {
                pc: v2.next_pc,
                next_pc: add32(v2.next_pc, 4),
                delay_slot: v2.branch,
                branch: false,
                ..v2
            }));
        }
        let r = self.decode_and_execute(instruction, debugger);
        if let Err(fault) = r {
            // A host-level abort: stop before committing anything
            // further, the caller quotes the fault and halts.
            return Err(fault);
        }
        // Commit the output registers as input for the next instruction.
        self.regs = self.out_regs;
        proof {
            let v1 = CpuView { current_pc: old(self)@.pc, ..old(self)@ };
            let v2 = fetch_spec(v1).0;
            let v3 = CpuView {
                pc: v2.next_pc,
                next_pc: add32(v2.next_pc, 4),
                delay_slot: v2.branch,
                branch: false,
                ..v2
            };
            let stepped = exec_spec(v3, instruction);
            assert(self@ =~~= (CpuView { regs: stepped.0.out_regs, ..stepped.0 }));
        }
        Ok(())
    }
}

/// A step raises the address-error exception at fetch exactly when its
/// program counter is misaligned. `pre` and `post` are the states around
/// one `run_next_instruction` call: the step's contract gives the two
/// hypotheses, and the exception state is recognisable because only a
/// fetch fault leaves the cycle counter untouched.
pub proof fn lemma_fetch_fault_iff_misaligned(pre: CpuView, post: CpuView)
    requires
        pre.pc % 4 != 0 ==> post == v_exception(
            CpuView { current_pc: pre.pc, ..pre },
            exception_code(Exception::LoadAddressError),
        ),
        pre.pc % 4 == 0 ==> post.tk.now > pre.tk.now,
    ensures
        pre.pc % 4 != 0 <==> post == v_exception(
            CpuView { current_pc: pre.pc, ..pre },
            exception_code(Exception::LoadAddressError),
        ),
{
    if pre.pc % 4 == 0 {
        assert(v_exception(
            CpuView { current_pc: pre.pc, ..pre },
            exception_code(Exception::LoadAddressError),
        ).tk.now == pre.tk.now);
    }
}

/// After a miss at `pc` refills its cache line, a fetch at `pc` hits the
/// refreshed line and is served the word just loaded from memory.
pub proof fn lemma_refill_then_hit(line: LineView, ram: Seq<u8>, pc: u32)
    requires
        pc % 4 == 0,
    ensures
        fetch_hit(refilled_line(line, ram, pc), pc),
        refilled_line(line, ram, pc).words[(pc / 4 % 4) as int] == word_at(ram, pc),
{
    lemma_set_tag_valid(pc);
    assert(pc / 16 * 16 + 4 * (pc / 4 % 4) == pc / 4 * 4) by (nonlinear_arith);
}

/// An invalidated line is missed by every fetch: its first-valid index
/// sits beyond the end of the line, while the tag survives.
pub proof fn lemma_invalidate_then_miss(line: LineView, pc: u32)
    ensures
        !fetch_hit(LineView { tag_valid: line.tag_valid | 0x10, ..line }, pc),
{
    lemma_invalidate(line.tag_valid);
}

/// A word load at the aligned base after SWL has stored through an
/// address inside that word returns exactly the blend-table value: the
/// register's high bytes placed below the memory word's surviving bytes.
/// The same holds for SWR with the register's low bytes placed above.
pub proof fn lemma_swl_swr_then_lw(ram: Seq<u8>, addr: u32, v: u32)
    requires
        ram.len() == RAM_SIZE,
    ensures
        ({
            let base = (addr / 4 * 4) as u32;
            let mem = word_at(ram, base);
            word_at(store_word(ram, base, swl_merge(mem, v, addr % 4)), base) == swl_merge(
                mem,
                v,
                addr % 4,
            )
        }),
        ({
            let base = (addr / 4 * 4) as u32;
            let mem = word_at(ram, base);
            word_at(store_word(ram, base, swr_merge(mem, v, addr % 4)), base) == swr_merge(
                mem,
                v,
                addr % 4,
            )
        }),
{
    let base = (addr / 4 * 4) as u32;
    let mem = word_at(ram, base);
    crate::bus::lemma_store_load_word(ram, base, swl_merge(mem, v, addr % 4));
    crate::bus::lemma_store_load_word(ram, base, swr_merge(mem, v, addr % 4));
}

/// Examining memory is idempotent: `examine` takes the CPU by shared
/// reference, so it cannot alter any observable state, and its contract
/// pins its result to `examine_spec` of the state alone — so any two
/// calls on the same state return equal values.
pub proof fn lemma_examine_idempotent(
    v: CpuView,
    width: AccessWidth,
    addr: u32,
    r1: u32,
    r2: u32,
)
    requires
        r1 == examine_spec(v, width, addr),
        r2 == examine_spec(v, width, addr),
    ensures
        r1 == r2,
{
}

} // verus!

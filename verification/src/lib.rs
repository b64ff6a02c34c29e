//! Cycle-aware interpreter for the PlayStation's 32-bit little-endian MIPS-I
//! CPU, with its system control coprocessor, branch and load delay slots,
//! precise exceptions, and a direct-mapped instruction cache.

pub mod disassembler;
pub mod bus;
pub mod cpu;
pub mod harness;
pub mod icache;
pub mod instruction;
pub mod status;
pub mod timekeeper;
pub mod timers;

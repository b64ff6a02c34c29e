//! Unit and property tests: exception protocol, overflow traps, cache
//! maintenance, the status register's mode stack, memory round trips,
//! the timekeeper, the timers, and the disassembler.

use psx_cpu::bus::Interconnect;
use psx_cpu::cpu::{AccessWidth, Cpu, Fatal};
use psx_cpu::disassembler::decode;
use psx_cpu::harness::{read, write_blob};
use psx_cpu::icache::ICacheLine;
use psx_cpu::instruction::Instruction;
use psx_cpu::status::StatusRegister;
use psx_cpu::timekeeper::{Peripheral, TimeKeeper};
use psx_cpu::timers::Timers;

const TIMEOUT: usize = 1_000_000;

fn fresh_cpu() -> Cpu {
    let inter = Interconnect::new();
    let mut cpu = Cpu::new(inter);
    for r in 0u32..31 {
        cpu.set_reg(r, 0);
    }
    cpu
}

fn run_to_sentinel(cpu: &mut Cpu) -> bool {
    let mut timeout = true;
    for _ in 0..TIMEOUT {
        if (cpu.pc() & 0x0fffffff) == 0xeadbee0 {
            timeout = false;
            break;
        }
        cpu.run_next_instruction(&mut ()).unwrap();
    }
    timeout
}

#[test]
fn test_add_overflow_traps_addu_wraps() {
    let mut cpu = fresh_cpu();
    cpu.set_reg(1, 0x7fffffff);
    cpu.set_reg(2, 1);

    // addu $4, $1, $2 wraps silently; add $3, $1, $2 then traps.
    write_blob(&mut cpu, 0x80100000, &vec![0x00222021, 0x00221820]);
    cpu.force_pc(0x80100000);

    cpu.run_next_instruction(&mut ()).unwrap();
    cpu.run_next_instruction(&mut ()).unwrap();

    assert_eq!(cpu.regs()[4], 0x80000000);
    // The trap left the destination unchanged and entered the handler
    // with the Overflow code.
    assert_eq!(cpu.regs()[3], 0);
    assert_eq!(cpu.cause(), 0xc << 2);
    assert_eq!(cpu.pc(), 0x80000080);
}

#[test]
fn test_misaligned_fetch_faults() {
    let mut cpu = fresh_cpu();
    cpu.force_pc(0x80100002);
    cpu.run_next_instruction(&mut ()).unwrap();
    assert_eq!(cpu.cause(), 0x4 << 2);
    assert_eq!(cpu.pc(), 0x80000080);
}

#[test]
fn test_misaligned_fetch_in_delay_slot() {
    let mut cpu = fresh_cpu();
    cpu.set_reg(1, 0x80100003);
    // jr $1, then a delay-slot nop; the target is misaligned so the
    // fetch faults with the delay-slot bit set in Cause.
    write_blob(&mut cpu, 0x80100000, &vec![0x00200008, 0x00000000]);
    cpu.force_pc(0x80100000);
    cpu.run_next_instruction(&mut ()).unwrap();
    cpu.run_next_instruction(&mut ()).unwrap();
    cpu.run_next_instruction(&mut ()).unwrap();
    assert_eq!(cpu.cause(), 0x80000010);
    assert_eq!(cpu.pc(), 0x80000080);
}

#[test]
fn test_syscall_and_rfe_restore_mode_stack() {
    let mut cpu = fresh_cpu();
    // Set SR[5:0] = 0x0b, then syscall; the handler is a bare rfe.
    write_blob(
        &mut cpu,
        0x80100000,
        &vec![0x3401000b, 0x40816000, 0x0000000c, 0x00000000],
    );
    write_blob(&mut cpu, 0x80000080, &vec![0x42000010, 0x00000000]);
    cpu.force_pc(0x80100000);

    for _ in 0..3 {
        cpu.run_next_instruction(&mut ()).unwrap();
    }
    // After the syscall the mode stack has been pushed...
    assert_eq!(cpu.cause(), 0x8 << 2);
    assert_eq!(cpu.sr(), 0x2c);
    assert_eq!(cpu.pc(), 0x80000080);
    // ... and the rfe pops it back, with the topmost entry discarded.
    cpu.run_next_instruction(&mut ()).unwrap();
    assert_eq!(cpu.sr(), 0x0b);
}

#[test]
fn test_writes_to_register_zero_are_masked() {
    let mut cpu = fresh_cpu();
    // addiu $zero, $zero, 5 and a load into $zero must both be masked.
    psx_cpu::harness::write(&mut cpu, AccessWidth::Word, 0, 0x12345678);
    write_blob(
        &mut cpu,
        0x80100000,
        &vec![0x24000005, 0x8c000000, 0x00000000, 0x0bab6fb8, 0x00000000],
    );
    cpu.force_pc(0x80100000);
    let timeout = run_to_sentinel(&mut cpu);
    assert!(timeout == false);
    assert_eq!(cpu.regs()[0], 0);
}

#[test]
fn test_store_load_round_trip_each_width() {
    let mut cpu = fresh_cpu();
    cpu.set_reg(1, 0x80110000);
    cpu.set_reg(2, 0xcafe3342);
    write_blob(
        &mut cpu,
        0x80100000,
        &vec![
            0xac220000, // sw $2, 0($1)
            0x8c230000, // lw $3, 0($1)
            0xa4220008, // sh $2, 8($1)
            0x94240008, // lhu $4, 8($1)
            0xa022000c, // sb $2, 12($1)
            0x9025000c, // lbu $5, 12($1)
            0x00000000, 0x0bab6fb8, 0x00000000,
        ],
    );
    cpu.force_pc(0x80100000);
    let timeout = run_to_sentinel(&mut cpu);
    assert!(timeout == false);
    assert_eq!(cpu.regs()[3], 0xcafe3342);
    assert_eq!(cpu.regs()[4], 0x3342);
    assert_eq!(cpu.regs()[5], 0x42);
}

#[test]
fn test_harness_round_trip_and_mirroring() {
    let mut cpu = fresh_cpu();
    psx_cpu::harness::write(&mut cpu, AccessWidth::Word, 0x10, 0xa1b2c3d4);
    assert_eq!(read(&cpu, AccessWidth::Word, 0x10), 0xa1b2c3d4);
    assert_eq!(read(&cpu, AccessWidth::HalfWord, 0x10), 0xc3d4);
    assert_eq!(read(&cpu, AccessWidth::Byte, 0x13), 0xa1);
    // The KSEG0 window and the RAM mirrors alias the same bytes.
    assert_eq!(read(&cpu, AccessWidth::Word, 0x80000010), 0xa1b2c3d4);
    assert_eq!(read(&cpu, AccessWidth::Word, 0x10 + 0x200000), 0xa1b2c3d4);

    psx_cpu::harness::write(&mut cpu, AccessWidth::HalfWord, 0x20, 0xffff1234);
    assert_eq!(read(&cpu, AccessWidth::HalfWord, 0x20), 0x1234);
    psx_cpu::harness::write(&mut cpu, AccessWidth::Byte, 0x30, 0xffffff9a);
    assert_eq!(read(&cpu, AccessWidth::Byte, 0x30), 0x9a);
}

#[test]
fn test_examine_is_idempotent() {
    let mut cpu = fresh_cpu();
    psx_cpu::harness::write(&mut cpu, AccessWidth::Word, 0x40, 0x01020304);
    let first = cpu.examine(AccessWidth::Word, 0x40);
    let second = cpu.examine(AccessWidth::Word, 0x40);
    assert_eq!(first, second);
    let b1 = cpu.examine(AccessWidth::Byte, 0x41);
    let b2 = cpu.examine(AccessWidth::Byte, 0x41);
    assert_eq!(b1, b2);
    assert_eq!(b1, 0x03);
}

#[test]
fn test_bus_word_stores_are_aligned_by_the_bus() {
    let mut inter = Interconnect::new();
    // A word store through an unaligned address lands on the aligned
    // word, as the bus ignores the low address bits.
    inter.store32(0x102, 0xdeadbeef);
    assert_eq!(inter.load32(0x100), 0xdeadbeef);
    assert_eq!(inter.load32(0x103), 0xdeadbeef);
    inter.store16(0x201, 0x5566);
    assert_eq!(inter.load16(0x200), 0x5566);
}

#[test]
fn test_gte_moves_and_command_fault() {
    let mut cpu = fresh_cpu();
    cpu.set_reg(1, 0x1234);
    write_blob(
        &mut cpu,
        0x80100000,
        &vec![
            0x48c12800, // ctc2 $1, cop2r5
            0x48422800, // cfc2 $2, cop2r5
            0x00000000, 0x0bab6fb8, 0x00000000,
        ],
    );
    cpu.force_pc(0x80100000);
    let timeout = run_to_sentinel(&mut cpu);
    assert!(timeout == false);
    assert_eq!(cpu.regs()[2], 0x1234);

    // An actual geometry command is an unimplemented host abort.
    let mut cpu = fresh_cpu();
    write_blob(&mut cpu, 0x80100000, &vec![0x4a000001]);
    cpu.force_pc(0x80100000);
    let r = cpu.run_next_instruction(&mut ());
    assert_eq!(r, Err(Fatal::GteInstruction(0x4a000001)));
}

#[test]
fn test_cop_faults() {
    // cop1 does not exist: an architectural CoprocessorError.
    let mut cpu = fresh_cpu();
    write_blob(&mut cpu, 0x80100000, &vec![0x44000000]);
    cpu.force_pc(0x80100000);
    cpu.run_next_instruction(&mut ()).unwrap();
    assert_eq!(cpu.cause(), 0xb << 2);

    // A non-zero write to the Cause register is a host abort.
    let mut cpu = fresh_cpu();
    cpu.set_reg(1, 5);
    write_blob(&mut cpu, 0x80100000, &vec![0x40816800]);
    cpu.force_pc(0x80100000);
    let r = cpu.run_next_instruction(&mut ());
    assert_eq!(r, Err(Fatal::UnhandledCop0Write(13, 5)));

    // A cop0 encoding that is not rfe in the low bits is a host abort.
    let mut cpu = fresh_cpu();
    write_blob(&mut cpu, 0x80100000, &vec![0x42000011]);
    cpu.force_pc(0x80100000);
    let r = cpu.run_next_instruction(&mut ());
    assert_eq!(r, Err(Fatal::InvalidCop0Encoding(0x42000011)));

    // Word transfers to and from the Geometry Transformation Engine are
    // host aborts.
    let mut cpu = fresh_cpu();
    write_blob(&mut cpu, 0x80100000, &vec![0xc8000000]);
    cpu.force_pc(0x80100000);
    assert_eq!(cpu.run_next_instruction(&mut ()), Err(Fatal::GteLoad(0xc8000000)));
    let mut cpu = fresh_cpu();
    write_blob(&mut cpu, 0x80100000, &vec![0xe8000000]);
    cpu.force_pc(0x80100000);
    assert_eq!(cpu.run_next_instruction(&mut ()), Err(Fatal::GteStore(0xe8000000)));

    // An opcode outside the table raises IllegalInstruction, never a
    // host abort.
    let mut cpu = fresh_cpu();
    write_blob(&mut cpu, 0x80100000, &vec![0xfc000000]);
    cpu.force_pc(0x80100000);
    cpu.run_next_instruction(&mut ()).unwrap();
    assert_eq!(cpu.cause(), 0xa << 2);
}

#[test]
fn test_unknown_cop0_operations() {
    // An unknown cop0 sub-opcode is a host abort.
    let mut cpu = fresh_cpu();
    write_blob(&mut cpu, 0x80100000, &vec![0x41000000]);
    cpu.force_pc(0x80100000);
    assert_eq!(
        cpu.run_next_instruction(&mut ()),
        Err(Fatal::UnhandledCop0Instruction(0x41000000))
    );

    // So is a read from an unhandled cop0 register.
    let mut cpu = fresh_cpu();
    write_blob(&mut cpu, 0x80100000, &vec![0x40013800]);
    cpu.force_pc(0x80100000);
    assert_eq!(cpu.run_next_instruction(&mut ()), Err(Fatal::UnhandledCop0Read(7)));
}

#[test]
fn test_address_errors_and_break() {
    // A word store through an unaligned address faults, and nothing is
    // written.
    let mut cpu = fresh_cpu();
    cpu.set_reg(1, 1);
    cpu.set_reg(2, 0x55);
    write_blob(&mut cpu, 0x80100000, &vec![0xac220000]);
    cpu.force_pc(0x80100000);
    cpu.run_next_instruction(&mut ()).unwrap();
    assert_eq!(cpu.cause(), 0x5 << 2);
    assert_eq!(cpu.pc(), 0x80000080);
    assert_eq!(read(&cpu, AccessWidth::Word, 0), 0);

    // A word load through an unaligned address faults too.
    let mut cpu = fresh_cpu();
    cpu.set_reg(1, 1);
    write_blob(&mut cpu, 0x80100000, &vec![0x8c220000]);
    cpu.force_pc(0x80100000);
    cpu.run_next_instruction(&mut ()).unwrap();
    assert_eq!(cpu.cause(), 0x4 << 2);

    // BREAK raises its own exception code.
    let mut cpu = fresh_cpu();
    write_blob(&mut cpu, 0x80100000, &vec![0x0000000d]);
    cpu.force_pc(0x80100000);
    cpu.run_next_instruction(&mut ()).unwrap();
    assert_eq!(cpu.cause(), 0x9 << 2);
}

#[test]
fn test_shift_compare_and_hilo_moves() {
    let mut cpu = fresh_cpu();
    cpu.set_reg(1, 0x80000010);
    cpu.set_reg(2, 4);
    write_blob(
        &mut cpu,
        0x80100000,
        &vec![
            0x00011900, // sll $3, $1, 4
            0x00012102, // srl $4, $1, 4
            0x00012903, // sra $5, $1, 4
            0x00413004, // sllv $6, $1, $2
            0x00413806, // srlv $7, $1, $2
            0x00414007, // srav $8, $1, $2
            0x0022482a, // slt $9, $1, $2
            0x0022502b, // sltu $10, $1, $2
            0x282bffff, // slti $11, $1, -1
            0x2c2cffff, // sltiu $12, $1, -1
            0x00226826, // xor $13, $1, $2
            0x00227027, // nor $14, $1, $2
            0x00417823, // subu $15, $2, $1
            0x00200011, // mthi $1
            0x00400013, // mtlo $2
            0x00008010, // mfhi $16
            0x00008812, // mflo $17
            0x0bab6fb8, 0x00000000,
        ],
    );
    cpu.force_pc(0x80100000);
    let timeout = run_to_sentinel(&mut cpu);
    assert!(timeout == false);
    assert_eq!(cpu.regs()[3], 0x00000100);
    assert_eq!(cpu.regs()[4], 0x08000001);
    assert_eq!(cpu.regs()[5], 0xf8000001);
    assert_eq!(cpu.regs()[6], 0x00000100);
    assert_eq!(cpu.regs()[7], 0x08000001);
    assert_eq!(cpu.regs()[8], 0xf8000001);
    assert_eq!(cpu.regs()[9], 1);
    assert_eq!(cpu.regs()[10], 0);
    assert_eq!(cpu.regs()[11], 1);
    assert_eq!(cpu.regs()[12], 1);
    assert_eq!(cpu.regs()[13], 0x80000014);
    assert_eq!(cpu.regs()[14], 0x7fffffeb);
    assert_eq!(cpu.regs()[15], 0x7ffffff4);
    assert_eq!(cpu.regs()[16], 0x80000010);
    assert_eq!(cpu.regs()[17], 4);
}

#[test]
fn test_cache_maintenance_requirements() {
    let mut cpu = fresh_cpu();
    // With the instruction cache disabled, maintenance is refused.
    assert_eq!(
        cpu.cache_maintenance(0x123, 0, AccessWidth::Word),
        Err(Fatal::CacheMaintenanceWhileDisabled)
    );
    cpu.set_cache_control(0x800);
    // Only full-word writes of zero are supported.
    assert_eq!(
        cpu.cache_maintenance(0x123, 5, AccessWidth::Word),
        Err(Fatal::UnsupportedIsolatedStore(5))
    );
    assert_eq!(
        cpu.cache_maintenance(0x123, 0, AccessWidth::Byte),
        Err(Fatal::UnsupportedIsolatedStore(0))
    );
    assert_eq!(cpu.cache_maintenance(0x123, 0, AccessWidth::Word), Ok(()));
}

#[test]
fn test_isolated_store_bypasses_memory() {
    let mut cpu = fresh_cpu();
    cpu.set_cache_control(0x800);
    cpu.set_reg(1, 0x10000);
    cpu.set_reg(2, 0x80110000);
    psx_cpu::harness::write(&mut cpu, AccessWidth::Word, 0x80110000, 0xdeadbeef);
    write_blob(
        &mut cpu,
        0x80100000,
        &vec![
            0x40816000, // mtc0 $1, cop0r12: isolate the cache
            0xac400000, // sw $zero, 0($2): diverted into the cache
            0x40806000, // mtc0 $zero, cop0r12: back to normal
            0x00000000, 0x0bab6fb8, 0x00000000,
        ],
    );
    cpu.force_pc(0x80100000);
    let timeout = run_to_sentinel(&mut cpu);
    assert!(timeout == false);
    // The store never reached RAM.
    assert_eq!(read(&cpu, AccessWidth::Word, 0x80110000), 0xdeadbeef);
}

#[test]
fn test_cache_isolation_patch_and_invalidate() {
    let mut cpu = fresh_cpu();
    cpu.set_cache_control(0x800);

    // A small routine: bump $1, return.
    write_blob(&mut cpu, 0x80100040, &vec![0x20210001, 0x03e00008, 0x00000000]);
    // Call the routine (caching it), then patch its first word to a nop
    // in the cache through an isolated store, and call it again: the
    // stale cache is served, so $1 is bumped only once.
    write_blob(
        &mut cpu,
        0x80100000,
        &vec![
            0x3c0a8010, // lui $10, 0x8010
            0x354a0040, // ori $10, $10, 0x40
            0x3c090001, // lui $9, 0x1
            0x0c040010, // jal 0x80100040
            0x00000000, //
            0x40896000, // mtc0 $9, cop0r12: isolate the cache
            0xad400000, // sw $zero, 0($10): patches the cached word
            0x40806000, // mtc0 $zero, cop0r12
            0x0c040010, // jal 0x80100040
            0x00000000, //
            0x0bab6fb8, 0x00000000,
        ],
    );
    cpu.force_pc(0x80100000);
    let timeout = run_to_sentinel(&mut cpu);
    assert!(timeout == false);
    assert_eq!(cpu.regs()[1], 1);
    // RAM still holds the real instruction; only the cache was patched.
    assert_eq!(read(&cpu, AccessWidth::Word, 0x80100040), 0x20210001);

    // Now in tag-test mode an isolated store invalidates the whole
    // line, so the next call refills from RAM and the real instruction
    // runs again.
    cpu.set_cache_control(0x804);
    write_blob(
        &mut cpu,
        0x80100100,
        &vec![
            0x40896000, // mtc0 $9, cop0r12
            0xad400000, // sw $zero, 0($10): invalidates the line
            0x40806000, // mtc0 $zero, cop0r12
            0x0c040010, // jal 0x80100040
            0x00000000, //
            0x0bab6fb8, 0x00000000,
        ],
    );
    cpu.force_pc(0x80100100);
    let timeout = run_to_sentinel(&mut cpu);
    assert!(timeout == false);
    assert_eq!(cpu.regs()[1], 2);
}

#[test]
fn test_status_register_mode_stack() {
    let mut sr = StatusRegister(0x2b);
    sr.enter_exception();
    assert_eq!(sr.as_u32(), 0x2c);
    sr.return_from_exception();
    // Everything restored but the discarded topmost entry.
    assert_eq!(sr.as_u32(), 0x0b);

    assert!(StatusRegister(0x10000).cache_isolated());
    assert!(!StatusRegister(0).cache_isolated());
    assert_eq!(StatusRegister(1 << 22).exception_handler(), 0xbfc00180);
    assert_eq!(StatusRegister(0).exception_handler(), 0x80000080);
}

#[test]
fn test_icache_line_packing() {
    let mut line = ICacheLine::new();
    assert_eq!(line.tag(), 0);
    assert_eq!(line.valid_index(), 0);
    assert_eq!(line.instruction(0).0, 0xbad0d);

    line.set_tag_valid(0x80100008);
    assert_eq!(line.tag(), 0x80100000);
    assert_eq!(line.valid_index(), 2);

    line.set_instruction(2, Instruction(0x42));
    assert_eq!(line.instruction(2).0, 0x42);

    line.invalidate();
    assert!(line.valid_index() > 3);
    assert_eq!(line.tag(), 0x80100000);
}

#[test]
fn test_timekeeper_sync_deltas() {
    let mut tk = TimeKeeper::new();
    tk.tick(5);
    assert_eq!(tk.sync(Peripheral::Gpu), 5);
    tk.tick(3);
    assert_eq!(tk.sync(Peripheral::Gpu), 3);
    assert_eq!(tk.sync(Peripheral::Timers), 8);
    // Synchronising again without time passing yields zero.
    assert_eq!(tk.sync(Peripheral::Timers), 0);
}

#[test]
fn test_timers_register_write_synchronises() {
    let mut tk = TimeKeeper::new();
    let mut timers = Timers::new();
    tk.tick(100);
    timers.set_reg(&mut tk, 0, 0);
    tk.tick(5);
    assert_eq!(tk.sync(Peripheral::Timers), 5);
    assert_eq!(tk.sync(Peripheral::Gpu), 105);
}

#[test]
fn test_decode_mnemonics() {
    assert_eq!(decode(Instruction(0x00000000)), "sll $zero, $zero << 0");
    assert_eq!(decode(Instruction(0x00221825)), "or $v1, $at, $v0");
    assert_eq!(decode(Instruction(0x0bab6fb8)), "J (PC & 0xf0000000) | eadbee0");
    assert_eq!(decode(Instruction(0x24210004)), "addiu $at, $at, 0x4");
    assert_eq!(decode(Instruction(0x2401ffff)), "addiu $at, $zero, 0xffffffff");
    assert_eq!(decode(Instruction(0x3401000b)), "ori $at, $zero, 0xb");
    assert_eq!(decode(Instruction(0x3c080013)), "lui $t0, 0x13");
    assert_eq!(decode(Instruction(0x40816000)), "mtc0 $at, cop0_12");
    assert_eq!(decode(Instruction(0x42000010)), "!UNKNOWN cop0 instruction 42000010!");
    assert_eq!(decode(Instruction(0xac220000)), "sw $v0, [$at + 0x0]");
    assert_eq!(decode(Instruction(0xffffffff)), "!UNKNOWN!");
}

#[test]
fn test_execution_through_enabled_icache() {
    // The same arithmetic program gives the same results with the
    // instruction cache turned on, exercising miss and refill.
    let mut cpu = fresh_cpu();
    cpu.set_cache_control(0x800);
    cpu.set_reg(1, 0xa);
    cpu.set_reg(2, -15i32 as u32);
    write_blob(
        &mut cpu,
        0x80100000,
        &vec![0x00201820, 0x00222020, 0x00412820, 0x00423020, 0x0bab6fb8, 0x00000000],
    );
    cpu.force_pc(0x80100000);
    let timeout = run_to_sentinel(&mut cpu);
    assert!(timeout == false);
    assert!(cpu.regs()[3] == 0xa);
    assert!(cpu.regs()[4] == -5i32 as u32);
    assert!(cpu.regs()[5] == -5i32 as u32);
    assert!(cpu.regs()[6] == -30i32 as u32);
}

#[test]
fn test_cpu_reset_state() {
    let cpu = Cpu::new(Interconnect::new());
    assert_eq!(cpu.pc(), 0xbfc00000);
    assert_eq!(cpu.regs()[0], 0);
    assert_eq!(cpu.regs()[1], 0xdeadbeef);
    assert_eq!(cpu.sr(), 0);
    assert_eq!(cpu.cause(), 0);
    assert_eq!(cpu.bad(), 0);
    assert_eq!(cpu.hi(), 0xdeadbeef);
    assert_eq!(cpu.lo(), 0xdeadbeef);
}

#[test]
fn test_mult_div_results() {
    let mut cpu = fresh_cpu();
    cpu.set_reg(1, 0xffffffff); // -1
    cpu.set_reg(2, 7);
    cpu.set_reg(3, 100);
    write_blob(
        &mut cpu,
        0x80100000,
        &vec![
            0x00220018, // mult $1, $2 : -7
            0x00002010, // mfhi $4
            0x00002812, // mflo $5
            0x00620019, // multu $3, $2 : 700
            0x00003010, // mfhi $6
            0x00003812, // mflo $7
            0x0062001a, // div $3, $2 : 100 / 7
            0x00004010, // mfhi $8
            0x00004812, // mflo $9
            0x0022001b, // divu $1, $2 : 0xffffffff / 7
            0x00005010, // mfhi $10
            0x00005812, // mflo $11
            0x0041001a, // div $2, $1 : 7 / -1
            0x00006010, // mfhi $12
            0x00006812, // mflo $13
            0x0040001a, // div $2, $0 : divide by zero
            0x00007010, // mfhi $14
            0x00007812, // mflo $15
            0x0bab6fb8, 0x00000000,
        ],
    );
    cpu.force_pc(0x80100000);
    let timeout = run_to_sentinel(&mut cpu);
    assert!(timeout == false);
    assert_eq!(cpu.regs()[4], 0xffffffff);
    assert_eq!(cpu.regs()[5], -7i32 as u32);
    assert_eq!(cpu.regs()[6], 0);
    assert_eq!(cpu.regs()[7], 700);
    assert_eq!(cpu.regs()[8], 2); // 100 % 7
    assert_eq!(cpu.regs()[9], 14); // 100 / 7
    assert_eq!(cpu.regs()[10], 3); // 0xffffffff % 7
    assert_eq!(cpu.regs()[11], 0x24924924); // 0xffffffff / 7
    assert_eq!(cpu.regs()[12], 0); // 7 % -1
    assert_eq!(cpu.regs()[13], -7i32 as u32); // 7 / -1
    assert_eq!(cpu.regs()[14], 7); // dividend on divide by zero
    assert_eq!(cpu.regs()[15], 0xffffffff); // bogus quotient for n >= 0
}

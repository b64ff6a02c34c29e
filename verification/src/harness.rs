//! The dummy test harness around the CPU: write instruction blobs and
//! data straight into RAM, and read memory back, without going through
//! the CPU's own store path.

use vstd::prelude::*;
use crate::bus::{InterView, store_word};
use crate::cpu::{AccessWidth, Cpu, CpuView, add32, examine_spec};

verus! {

/// The RAM after the first `n` words of `blob` have been stored
/// little-endian at successive word addresses starting at `address`.
pub open spec fn blob_stored(ram: Seq<u8>, address: u32, blob: Seq<u32>, n: int) -> Seq<u8>
    decreases n,
{
    if n <= 0 {
        ram
    } else {
        store_word(
            blob_stored(ram, address, blob, n - 1),
            add32(address, (4 * (n - 1)) as u32),
            blob[n - 1],
        )
    }
}

/// Store each word of `blob` into RAM at successive word addresses
/// starting at `address`.
pub fn write_blob(cpu: &mut Cpu, address: u32, blob: &Vec<u32>)
    requires
        old(cpu).wf(),
        address % 4 == 0,
        blob@.len() <= 0x8_0000,
    ensures
        final(cpu).wf(),
        final(cpu)@ == (CpuView {
            inter: InterView {
                ram: blob_stored(old(cpu)@.inter.ram, address, blob@, blob@.len() as int),
                ..old(cpu)@.inter
            },
            ..old(cpu)@
        }),
{
    let mut i: usize = 0;
    while i < blob.len()
        invariant
            cpu.wf(),
            address % 4 == 0,
            i <= blob@.len() <= 0x8_0000,
            cpu@ == (CpuView {
                inter: InterView {
                    ram: blob_stored(old(cpu)@.inter.ram, address, blob@, i as int),
                    ..old(cpu)@.inter
                },
                ..old(cpu)@
            }),
        decreases blob@.len() - i,
    {
        let target = address.wrapping_add((4 * i) as u32);
        proof {
            assert(target % 4 == 0) by (nonlinear_arith)
                requires
                    address % 4 == 0,
                    target == add32(address, (4 * i) as u32),
                    i < 0x8_0000,
            ;
        }
        cpu.ram_store(AccessWidth::Word, target, blob[i]);
        proof {
            assert(cpu@ =~~= (CpuView {
                inter: InterView {
                    ram: blob_stored(old(cpu)@.inter.ram, address, blob@, i + 1),
                    ..old(cpu)@.inter
                },
                ..old(cpu)@
            }));
        }
        i = i + 1;
    }
}

/// Store one value of the given width straight into RAM.
pub fn write(cpu: &mut Cpu, width: AccessWidth, address: u32, v: u32)
    requires
        old(cpu).wf(),
    ensures
        final(cpu).wf(),
        final(cpu)@.inter.cache_control == old(cpu)@.inter.cache_control,
        final(cpu)@ == (CpuView {
            inter: final(cpu)@.inter,
            ..old(cpu)@
        }),
        examine_spec(final(cpu)@, width, address) == match width {
            AccessWidth::Byte => v % 0x100,
            AccessWidth::HalfWord => v % 0x1_0000,
            AccessWidth::Word => v,
        },
{
    cpu.ram_store(width, address, v);
    proof {
        match width {
            AccessWidth::Byte => crate::bus::lemma_store_load_byte(
                old(cpu)@.inter.ram,
                address,
                (v % 0x100) as u8,
            ),
            AccessWidth::HalfWord => crate::bus::lemma_store_load_half(
                old(cpu)@.inter.ram,
                (address / 2 * 2) as u32,
                v,
            ),
            AccessWidth::Word => crate::bus::lemma_store_load_word(
                old(cpu)@.inter.ram,
                (address / 4 * 4) as u32,
                v,
            ),
        }
        assert(final(cpu)@ =~~= (CpuView { inter: final(cpu)@.inter, ..old(cpu)@ }));
    }
}

/// Read one value of the given width from RAM, zero-extended.
pub fn read(cpu: &Cpu, width: AccessWidth, address: u32) -> (r: u32)
    requires
        cpu.wf(),
    ensures
        r == examine_spec(cpu@, width, address),
{
    cpu.examine(width, address)
}

} // verus!

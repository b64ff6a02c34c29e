//! The memory interface the CPU drives: 2 MiB of RAM mirrored over the
//! whole address space, plus the cache control register.
//!
//! The console's KUSEG, KSEG0 and KSEG1 windows all map onto the same
//! physical RAM, and the RAM itself is mirrored, so an address is reduced
//! to a byte index by taking it modulo the RAM size. Words and halfwords
//! are composed from bytes little-endian.

use vstd::prelude::*;

verus! {

/// Size of system RAM in bytes.
pub const RAM_SIZE: usize = 0x20_0000;

/// The byte index a CPU address falls on.
pub open spec fn ram_index(addr: u32) -> u32 {
    addr % 0x20_0000
}

/// `addr` advanced by `k` bytes, wrapping around the address space.
pub open spec fn addr_plus(addr: u32, k: u32) -> u32 {
    vstd::wrapping::u32_specs::wrapping_add(addr, k)
}

/// The byte stored at a CPU address.
pub open spec fn byte_at(ram: Seq<u8>, addr: u32) -> u8 {
    ram[ram_index(addr) as int]
}

/// The little-endian halfword starting at a CPU address, zero-extended.
pub open spec fn half_at(ram: Seq<u8>, addr: u32) -> u32 {
    (byte_at(ram, addr) + byte_at(ram, addr_plus(addr, 1)) * 0x100) as u32
}

/// The little-endian word starting at a CPU address.
pub open spec fn word_at(ram: Seq<u8>, addr: u32) -> u32 {
    (byte_at(ram, addr) + byte_at(ram, addr_plus(addr, 1)) * 0x100 + byte_at(
        ram,
        addr_plus(addr, 2),
    ) * 0x1_0000 + byte_at(ram, addr_plus(addr, 3)) * 0x100_0000) as u32
}

/// The RAM after a byte store at a CPU address.
pub open spec fn store_byte(ram: Seq<u8>, addr: u32, v: u8) -> Seq<u8> {
    ram.update(ram_index(addr) as int, v)
}

/// The RAM after a little-endian halfword store at a CPU address; the high
/// 16 bits of `v` are ignored.
pub open spec fn store_half(ram: Seq<u8>, addr: u32, v: u32) -> Seq<u8> {
    ram.update(ram_index(addr) as int, (v % 0x100) as u8).update(
        ram_index(addr_plus(addr, 1)) as int,
        (v / 0x100 % 0x100) as u8,
    )
}

/// The RAM after a little-endian word store at a CPU address.
pub open spec fn store_word(ram: Seq<u8>, addr: u32, v: u32) -> Seq<u8> {
    ram.update(ram_index(addr) as int, (v % 0x100) as u8).update(
        ram_index(addr_plus(addr, 1)) as int,
        (v / 0x100 % 0x100) as u8,
    ).update(ram_index(addr_plus(addr, 2)) as int, (v / 0x1_0000 % 0x100) as u8).update(
        ram_index(addr_plus(addr, 3)) as int,
        (v / 0x100_0000) as u8,
    )
}

/// The cache control register: global instruction-cache enable and the
/// tag-test maintenance mode.
#[derive(Clone, Copy, PartialEq, Eq, Structural)]
pub struct CacheControl(pub u32);

impl CacheControl {
    /// Bit 11: the instruction cache is enabled.
    pub fn icache_enabled(self) -> (r: bool)
        ensures
            r == (self.0 / 0x800 % 2 == 1),
    {
        self.0 / 0x800 % 2 == 1
    }

    /// Bit 2: writes made during cache isolation invalidate whole lines
    /// instead of filling single words.
    pub fn tag_test_mode(self) -> (r: bool)
        ensures
            r == (self.0 / 4 % 2 == 1),
    {
        self.0 / 4 % 2 == 1
    }
}

/// The memory interface: mirrored RAM and the cache control register.
pub struct Interconnect {
    ram: Vec<u8>,
    cache_control: u32,
}

/// The contents of the memory interface as plain values.
pub ghost struct InterView {
    /// The RAM contents, byte by byte.
    pub ram: Seq<u8>,
    /// The raw cache control register.
    pub cache_control: u32,
}

impl View for Interconnect {
    type V = InterView;

    closed spec fn view(&self) -> InterView {
        InterView { ram: self.ram@, cache_control: self.cache_control }
    }
}

impl Interconnect {
    /// The RAM holds exactly `RAM_SIZE` bytes.
    pub open spec fn wf(self) -> bool {
        self@.ram.len() == RAM_SIZE
    }

    /// A fresh interconnect: RAM zeroed, cache control cleared (so the
    /// instruction cache starts disabled).
    pub fn new() -> (r: Interconnect)
        ensures
            r.wf(),
            r@.ram == Seq::new(RAM_SIZE as nat, |i: int| 0u8),
            r@.cache_control == 0,
    {
        let mut ram: Vec<u8> = Vec::new();
        while ram.len() < RAM_SIZE
            invariant
                ram@ == Seq::new(ram@.len(), |i: int| 0u8),
                ram@.len() <= RAM_SIZE,
            decreases RAM_SIZE - ram@.len(),
        {
            ram.push(0u8);
            proof {
                assert(ram@ =~= Seq::new(ram@.len(), |i: int| 0u8));
            }
        }
        Interconnect { ram, cache_control: 0 }
    }

    /// Fetch the instruction word at `addr`; the low two address bits
    /// are ignored, as the bus serves whole words.
    pub fn load_instruction(&self, addr: u32) -> (r: u32)
        requires
            self.wf(),
        ensures
            r == word_at(self@.ram, (addr / 4 * 4) as u32),
    {
        self.load32(addr)
    }

    /// Read the byte at `addr`.
    pub fn load8(&self, addr: u32) -> (r: u8)
        requires
            self.wf(),
        ensures
            r == byte_at(self@.ram, addr),
    {
        self.ram[(addr % 0x20_0000) as usize]
    }

    /// Read the little-endian halfword at `addr`, zero-extended; the low
    /// address bit is ignored, as the bus serves whole halfwords.
    pub fn load16(&self, addr: u32) -> (r: u32)
        requires
            self.wf(),
        ensures
            r == half_at(self@.ram, (addr / 2 * 2) as u32),
            r < 0x1_0000,
    {
        let addr = addr / 2 * 2;
        let b0 = self.ram[(addr % 0x20_0000) as usize] as u32;
        let b1 = self.ram[(addr.wrapping_add(1) % 0x20_0000) as usize] as u32;
        b0 + b1 * 0x100
    }

    /// Read the little-endian word at `addr`; the low two address bits
    /// are ignored, as the bus serves whole words.
    pub fn load32(&self, addr: u32) -> (r: u32)
        requires
            self.wf(),
        ensures
            r == word_at(self@.ram, (addr / 4 * 4) as u32),
    {
        let addr = addr / 4 * 4;
        let b0 = self.ram[(addr % 0x20_0000) as usize] as u32;
        let b1 = self.ram[(addr.wrapping_add(1) % 0x20_0000) as usize] as u32;
        let b2 = self.ram[(addr.wrapping_add(2) % 0x20_0000) as usize] as u32;
        let b3 = self.ram[(addr.wrapping_add(3) % 0x20_0000) as usize] as u32;
        b0 + b1 * 0x100 + b2 * 0x1_0000 + b3 * 0x100_0000
    }

    /// Write the byte `v` at `addr`.
    pub fn store8(&mut self, addr: u32, v: u8)
        requires
            old(self).wf(),
        ensures
            final(self).wf(),
            final(self)@.ram == store_byte(old(self)@.ram, addr, v),
            final(self)@.cache_control == old(self)@.cache_control,
    {
        let i = (addr % 0x20_0000) as usize;
        self.ram.set(i, v);
    }

    /// Write the low 16 bits of `v` at `addr`, little-endian; the low
    /// address bit is ignored, as the bus redirects halfword stores to
    /// the halfword boundary.
    pub fn store16(&mut self, addr: u32, v: u32)
        requires
            old(self).wf(),
        ensures
            final(self).wf(),
            final(self)@.ram == store_half(old(self)@.ram, (addr / 2 * 2) as u32, v),
            final(self)@.cache_control == old(self)@.cache_control,
    {
        let addr = addr / 2 * 2;
        let i0 = (addr % 0x20_0000) as usize;
        let i1 = (addr.wrapping_add(1) % 0x20_0000) as usize;
        self.ram.set(i0, (v % 0x100) as u8);
        self.ram.set(i1, (v / 0x100 % 0x100) as u8);
    }

    /// Write the word `v` at `addr`, little-endian; the low two address
    /// bits are ignored, as the bus redirects word stores to the word
    /// boundary.
    pub fn store32(&mut self, addr: u32, v: u32)
        requires
            old(self).wf(),
        ensures
            final(self).wf(),
            final(self)@.ram == store_word(old(self)@.ram, (addr / 4 * 4) as u32, v),
            final(self)@.cache_control == old(self)@.cache_control,
    {
        let addr = addr / 4 * 4;
        let i0 = (addr % 0x20_0000) as usize;
        let i1 = (addr.wrapping_add(1) % 0x20_0000) as usize;
        let i2 = (addr.wrapping_add(2) % 0x20_0000) as usize;
        let i3 = (addr.wrapping_add(3) % 0x20_0000) as usize;
        self.ram.set(i0, (v % 0x100) as u8);
        self.ram.set(i1, (v / 0x100 % 0x100) as u8);
        self.ram.set(i2, (v / 0x1_0000 % 0x100) as u8);
        self.ram.set(i3, (v / 0x100_0000) as u8);
    }

    /// The current cache control register.
    pub fn cache_control(&self) -> (r: CacheControl)
        ensures
            r.0 == self@.cache_control,
    {
        CacheControl(self.cache_control)
    }

    /// Replace the cache control register; used by the host around the
    /// CPU, which never reaches this register through a data store in this
    /// model.
    pub fn set_cache_control(&mut self, v: u32)
        requires
            old(self).wf(),
        ensures
            final(self).wf(),
            final(self)@.cache_control == v,
            final(self)@.ram == old(self)@.ram,
    {
        self.cache_control = v;
    }
}

/// The four byte indices a word store touches are pairwise distinct.
proof fn lemma_word_indices_distinct(addr: u32)
    by (bit_vector)
    ensures
        ram_index(addr) != ram_index(addr_plus(addr, 1)),
        ram_index(addr) != ram_index(addr_plus(addr, 2)),
        ram_index(addr) != ram_index(addr_plus(addr, 3)),
        ram_index(addr_plus(addr, 1)) != ram_index(addr_plus(addr, 2)),
        ram_index(addr_plus(addr, 1)) != ram_index(addr_plus(addr, 3)),
        ram_index(addr_plus(addr, 2)) != ram_index(addr_plus(addr, 3)),
{
}

/// Round trip: a byte store followed by a byte load at the same address
/// returns the stored value.
pub proof fn lemma_store_load_byte(ram: Seq<u8>, addr: u32, v: u8)
    requires
        ram.len() == RAM_SIZE,
    ensures
        byte_at(store_byte(ram, addr, v), addr) == v,
{
    assert(ram_index(addr) < 0x20_0000) by (bit_vector);
}

/// Round trip: a halfword store followed by a halfword load at the same
/// address returns the stored value (its low 16 bits).
pub proof fn lemma_store_load_half(ram: Seq<u8>, addr: u32, v: u32)
    requires
        ram.len() == RAM_SIZE,
    ensures
        half_at(store_half(ram, addr, v), addr) == v % 0x1_0000,
{
    lemma_word_indices_distinct(addr);
    assert(ram_index(addr) < 0x20_0000 && ram_index(addr_plus(addr, 1)) < 0x20_0000)
        by (bit_vector);
    assert(v % 0x100 + (v / 0x100 % 0x100) * 0x100 == v % 0x1_0000) by (bit_vector);
}

/// Round trip: a word store followed by a word load at the same address
/// returns the stored value.
pub proof fn lemma_store_load_word(ram: Seq<u8>, addr: u32, v: u32)
    requires
        ram.len() == RAM_SIZE,
    ensures
        word_at(store_word(ram, addr, v), addr) == v,
{
    lemma_word_indices_distinct(addr);
    assert(ram_index(addr) < 0x20_0000 && ram_index(addr_plus(addr, 1)) < 0x20_0000 && ram_index(
        addr_plus(addr, 2),
    ) < 0x20_0000 && ram_index(addr_plus(addr, 3)) < 0x20_0000) by (bit_vector);
    assert(v % 0x100 + (v / 0x100 % 0x100) * 0x100 + (v / 0x1_0000 % 0x100) * 0x1_0000 + (v
        / 0x100_0000) * 0x100_0000 == v) by (bit_vector);
}

} // verus!

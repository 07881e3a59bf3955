//! The memory subsystem: a fixed-size byte-addressable backing store with
//! little-endian byte/half/word access and an address-space partitioning
//! policy.
//!
//! A 32-bit address with bit 31 set targets physical memory at offset
//! `addr - 0x8000_0000` in the backing array; that offset is bounds-checked,
//! and an out-of-range access faults (the accessor returns `None` or
//! `false`) instead of wrapping or corrupting neighbouring bytes. An address
//! with bit 31 clear is unmapped: loads return 0 and stores are no-ops.

use vstd::prelude::*;

use crate::bits::wadd;

verus! {

/// Capacity of the physical backing store in bytes (16 MiB).
pub const MEMORY_SIZE: usize = 0x100_0000;

/// Whether an address targets physical memory (bit 31 set).
pub open spec fn mapped(addr: u32) -> bool {
    addr >= 0x8000_0000
}

/// The physical offset of a mapped address: its low 31 bits.
pub open spec fn phys(addr: u32) -> int
    recommends
        mapped(addr),
{
    addr - 0x8000_0000
}

/// Whether a one-byte access at `addr` is free of faults: either unmapped,
/// or mapped with its offset inside the backing store.
pub open spec fn byte_ok(addr: u32) -> bool {
    !mapped(addr) || phys(addr) < MEMORY_SIZE
}

/// Whether a two-byte access at `addr` is free of faults.
pub open spec fn half_ok(addr: u32) -> bool {
    byte_ok(addr) && byte_ok(wadd(addr, 1))
}

/// Whether a four-byte access at `addr` is free of faults.
pub open spec fn word_ok(addr: u32) -> bool {
    byte_ok(addr) && byte_ok(wadd(addr, 1)) && byte_ok(wadd(addr, 2)) && byte_ok(wadd(addr, 3))
}

/// The byte read at `addr`: the stored byte when mapped, 0 when unmapped.
pub open spec fn read_byte(m: Seq<u8>, addr: u32) -> u8
    recommends
        byte_ok(addr),
{
    if mapped(addr) {
        m[phys(addr)]
    } else {
        0
    }
}

/// The store after a byte write at `addr`: updated when mapped, unchanged
/// when unmapped.
pub open spec fn write_byte(m: Seq<u8>, addr: u32, v: u8) -> Seq<u8>
    recommends
        byte_ok(addr),
{
    if mapped(addr) {
        m.update(phys(addr), v)
    } else {
        m
    }
}

/// The halfword read at `addr`, little-endian: the low byte at the lower
/// address.
pub open spec fn read_half(m: Seq<u8>, addr: u32) -> u16
    recommends
        half_ok(addr),
{
    ((read_byte(m, wadd(addr, 1)) as u16) << 8) | (read_byte(m, addr) as u16)
}

/// The word read at `addr`, little-endian.
pub open spec fn read_word(m: Seq<u8>, addr: u32) -> u32
    recommends
        word_ok(addr),
{
    ((read_byte(m, wadd(addr, 3)) as u32) << 24) | ((read_byte(m, wadd(addr, 2)) as u32) << 16) | ((
    read_byte(m, wadd(addr, 1)) as u32) << 8) | (read_byte(m, addr) as u32)
}

/// The store after a little-endian halfword write at `addr`.
pub open spec fn write_half(m: Seq<u8>, addr: u32, v: u16) -> Seq<u8>
    recommends
        half_ok(addr),
{
    write_byte(write_byte(m, addr, v as u8), wadd(addr, 1), (v >> 8) as u8)
}

/// The store after a little-endian word write at `addr`.
pub open spec fn write_word(m: Seq<u8>, addr: u32, v: u32) -> Seq<u8>
    recommends
        word_ok(addr),
{
    write_byte(
        write_byte(
            write_byte(write_byte(m, addr, v as u8), wadd(addr, 1), (v >> 8) as u8),
            wadd(addr, 2),
            (v >> 16) as u8,
        ),
        wadd(addr, 3),
        (v >> 24) as u8,
    )
}

/// The physical backing store.
pub struct Mem {
    bytes: Vec<u8>,
}

impl View for Mem {
    type V = Seq<u8>;

    closed spec fn view(&self) -> Seq<u8> {
        self.bytes@
    }
}

/// Whether a byte access at `addr` is free of faults, as executable code.
pub fn byte_addr_ok(addr: u32) -> (r: bool)
    ensures
        r == byte_ok(addr),
{
    addr < 0x8000_0000 || addr - 0x8000_0000 < MEMORY_SIZE as u32
}

impl Mem {
    /// The backing store always holds exactly `MEMORY_SIZE` bytes.
    pub open spec fn wf(&self) -> bool {
        self@.len() == MEMORY_SIZE
    }

    /// A zero-filled memory.
    pub fn new() -> (r: Mem)
        ensures
            r.wf(),
            r@ == Seq::new(MEMORY_SIZE as nat, |i: int| 0u8),
    {
        let mut bytes: Vec<u8> = Vec::with_capacity(MEMORY_SIZE);
        let mut i: usize = 0;
        while i < MEMORY_SIZE
            invariant
                i <= MEMORY_SIZE,
                bytes@.len() == i,
                forall|j: int| 0 <= j < i ==> bytes@[j] == 0u8,
            decreases MEMORY_SIZE - i,
        {
            bytes.push(0u8);
            i = i + 1;
        }
        proof {
            assert(bytes@ =~= Seq::new(MEMORY_SIZE as nat, |i: int| 0u8));
        }
        Mem { bytes }
    }

    /// A memory holding the given bytes, which must fill it exactly.
    pub fn from_contents(data: Vec<u8>) -> (r: Mem)
        requires
            data@.len() == MEMORY_SIZE,
        ensures
            r.wf(),
            r@ == data@,
    {
        Mem { bytes: data }
    }

    /// Load a byte. `None` is the fault for a mapped address beyond the
    /// backing store; an unmapped address reads as 0.
    pub fn lb(&self, addr: u32) -> (r: Option<u8>)
        requires
            self.wf(),
        ensures
            r is Some <==> byte_ok(addr),
            byte_ok(addr) ==> r == Some(read_byte(self@, addr)),
    {
        if addr >= 0x8000_0000 {
            let off = (addr - 0x8000_0000) as usize;
            if off < MEMORY_SIZE {
                Some(self.bytes[off])
            } else {
                None
            }
        } else {
            Some(0)
        }
    }

    /// Store a byte. Returns whether the access was free of faults; a store
    /// to an unmapped address succeeds with no effect.
    pub fn sb(&mut self, addr: u32, val: u8) -> (r: bool)
        requires
            old(self).wf(),
        ensures
            final(self).wf(),
            r == byte_ok(addr),
            r ==> final(self)@ == write_byte(old(self)@, addr, val),
            !r ==> final(self)@ == old(self)@,
    {
        if addr >= 0x8000_0000 {
            let off = (addr - 0x8000_0000) as usize;
            if off < MEMORY_SIZE {
                self.bytes[off] = val;
                true
            } else {
                false
            }
        } else {
            true
        }
    }

    /// Load a halfword, little-endian, one byte at a time.
    pub fn lh(&self, addr: u32) -> (r: Option<u16>)
        requires
            self.wf(),
        ensures
            r is Some <==> half_ok(addr),
            half_ok(addr) ==> r == Some(read_half(self@, addr)),
    {
        match (self.lb(addr), self.lb(addr.wrapping_add(1))) {
            (Some(lo), Some(hi)) => Some(((hi as u16) << 8) | (lo as u16)),
            _ => None,
        }
    }

    /// Load a word, little-endian, one byte at a time.
    pub fn lw(&self, addr: u32) -> (r: Option<u32>)
        requires
            self.wf(),
        ensures
            r is Some <==> word_ok(addr),
            word_ok(addr) ==> r == Some(read_word(self@, addr)),
    {
        let b0 = self.lb(addr);
        let b1 = self.lb(addr.wrapping_add(1));
        let b2 = self.lb(addr.wrapping_add(2));
        let b3 = self.lb(addr.wrapping_add(3));
        match (b0, b1, b2, b3) {
            (Some(x0), Some(x1), Some(x2), Some(x3)) => Some(
                ((x3 as u32) << 24) | ((x2 as u32) << 16) | ((x1 as u32) << 8) | (x0 as u32),
            ),
            _ => None,
        }
    }

    /// Store a halfword, little-endian. A faulting access leaves memory
    /// unchanged: both byte addresses are checked before either is written.
    pub fn sh(&mut self, addr: u32, val: u16) -> (r: bool)
        requires
            old(self).wf(),
        ensures
            final(self).wf(),
            r == half_ok(addr),
            r ==> final(self)@ == write_half(old(self)@, addr, val),
            !r ==> final(self)@ == old(self)@,
    {
        if byte_addr_ok(addr) && byte_addr_ok(addr.wrapping_add(1)) {
            self.sb(addr, val as u8);
            self.sb(addr.wrapping_add(1), (val >> 8) as u8);
            true
        } else {
            false
        }
    }

    /// Store a word, little-endian. A faulting access leaves memory
    /// unchanged: all four byte addresses are checked before any is written.
    pub fn sw(&mut self, addr: u32, val: u32) -> (r: bool)
        requires
            old(self).wf(),
        ensures
            final(self).wf(),
            r == word_ok(addr),
            r ==> final(self)@ == write_word(old(self)@, addr, val),
            !r ==> final(self)@ == old(self)@,
    {
        if byte_addr_ok(addr) && byte_addr_ok(addr.wrapping_add(1)) && byte_addr_ok(
            addr.wrapping_add(2),
        ) && byte_addr_ok(addr.wrapping_add(3)) {
            self.sb(addr, val as u8);
            self.sb(addr.wrapping_add(1), (val >> 8) as u8);
            self.sb(addr.wrapping_add(2), (val >> 16) as u8);
            self.sb(addr.wrapping_add(3), (val >> 24) as u8);
            true
        } else {
            false
        }
    }
}

} // verus!

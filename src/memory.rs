//! The read/write capability through which an instruction engine reaches memory.
use vstd::prelude::*;
use crate::bus::MemoryBus;
use crate::bytes::le_bytes;

verus! {

/// A memory backend readable and writable at four widths; multi-byte values
/// are little-endian. Reads take `&mut self` because a backend owned by the
/// host may attach side effects (memory-mapped I/O) to any access.
pub trait RwMemory {
    fn read_byte(&mut self, addr: u64) -> u8;

    fn read_word(&mut self, addr: u64) -> u16;

    fn read_dword(&mut self, addr: u64) -> u32;

    fn read_qword(&mut self, addr: u64) -> u64;

    fn write_byte(&mut self, addr: u64, value: u8);

    fn write_word(&mut self, addr: u64, value: u16);

    fn write_dword(&mut self, addr: u64, value: u32);

    fn write_qword(&mut self, addr: u64, value: u64);
}

impl RwMemory for MemoryBus {
    fn read_byte(&mut self, addr: u64) -> (r: u8)
        ensures
            r as nat == old(self)@.read_value(addr, 1),
            final(self)@ == old(self)@,
    {
        MemoryBus::read_byte(self, addr)
    }

    fn read_word(&mut self, addr: u64) -> (r: u16)
        ensures
            r as nat == old(self)@.read_value(addr, 2),
            final(self)@ == old(self)@,
    {
        MemoryBus::read_word(self, addr)
    }

    fn read_dword(&mut self, addr: u64) -> (r: u32)
        ensures
            r as nat == old(self)@.read_value(addr, 4),
            final(self)@ == old(self)@,
    {
        MemoryBus::read_dword(self, addr)
    }

    fn read_qword(&mut self, addr: u64) -> (r: u64)
        ensures
            r as nat == old(self)@.read_value(addr, 8),
            final(self)@ == old(self)@,
    {
        MemoryBus::read_qword(self, addr)
    }

    fn write_byte(&mut self, addr: u64, value: u8)
        ensures
            final(self)@ == old(self)@.stored(addr, le_bytes(value as nat, 1)),
    {
        MemoryBus::write_byte(self, addr, value)
    }

    fn write_word(&mut self, addr: u64, value: u16)
        ensures
            final(self)@ == old(self)@.stored(addr, le_bytes(value as nat, 2)),
    {
        MemoryBus::write_word(self, addr, value)
    }

    fn write_dword(&mut self, addr: u64, value: u32)
        ensures
            final(self)@ == old(self)@.stored(addr, le_bytes(value as nat, 4)),
    {
        MemoryBus::write_dword(self, addr, value)
    }

    fn write_qword(&mut self, addr: u64, value: u64)
        ensures
            final(self)@ == old(self)@.stored(addr, le_bytes(value as nat, 8)),
    {
        MemoryBus::write_qword(self, addr, value)
    }
}

/// Storage owned by the host, reached through the bus's address mask: every
/// access is forwarded to the store, once, at its own width, with the address
/// ANDed with `mem_mask`. Nothing is cached or coalesced.
pub struct MaskedStore<S> {
    mem_mask: u64,
    store: S,
}

impl<S: RwMemory> MaskedStore<S> {
    pub fn new(mem_mask: u64, store: S) -> (r: MaskedStore<S>)
        ensures
            r.mem_mask() == mem_mask,
            r.store() == store,
    {
        MaskedStore { mem_mask, store }
    }

    pub closed spec fn mem_mask(&self) -> u64 {
        self.mem_mask
    }

    pub closed spec fn store(&self) -> S {
        self.store
    }

    /// The address handed to the store for an access at `addr`.
    pub fn decode(&self, addr: u64) -> (r: u64)
        ensures
            r == addr & self.mem_mask(),
    {
        addr & self.mem_mask
    }

    /// Unbinds the store, handing it back to the host.
    pub fn into_inner(self) -> (r: S)
        ensures
            r == self.store(),
    {
        self.store
    }
}

impl<S: RwMemory> RwMemory for MaskedStore<S> {
    fn read_byte(&mut self, addr: u64) -> (r: u8)
        ensures
            final(self).mem_mask() == old(self).mem_mask(),
    {
        let a = self.decode(addr);
        self.store.read_byte(a)
    }

    fn read_word(&mut self, addr: u64) -> (r: u16)
        ensures
            final(self).mem_mask() == old(self).mem_mask(),
    {
        let a = self.decode(addr);
        self.store.read_word(a)
    }

    fn read_dword(&mut self, addr: u64) -> (r: u32)
        ensures
            final(self).mem_mask() == old(self).mem_mask(),
    {
        let a = self.decode(addr);
        self.store.read_dword(a)
    }

    fn read_qword(&mut self, addr: u64) -> (r: u64)
        ensures
            final(self).mem_mask() == old(self).mem_mask(),
    {
        let a = self.decode(addr);
        self.store.read_qword(a)
    }

    fn write_byte(&mut self, addr: u64, value: u8)
        ensures
            final(self).mem_mask() == old(self).mem_mask(),
    {
        let a = self.decode(addr);
        self.store.write_byte(a, value)
    }

    fn write_word(&mut self, addr: u64, value: u16)
        ensures
            final(self).mem_mask() == old(self).mem_mask(),
    {
        let a = self.decode(addr);
        self.store.write_word(a, value)
    }

    fn write_dword(&mut self, addr: u64, value: u32)
        ensures
            final(self).mem_mask() == old(self).mem_mask(),
    {
        let a = self.decode(addr);
        self.store.write_dword(a, value)
    }

    fn write_qword(&mut self, addr: u64, value: u64)
        ensures
            final(self).mem_mask() == old(self).mem_mask(),
    {
        let a = self.decode(addr);
        self.store.write_qword(a, value)
    }
}

} // verus!

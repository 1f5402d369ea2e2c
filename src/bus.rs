//! The memory bus: mask-based address decoding over RAM and an optional ROM.
//!
//! Every incoming address is first ANDed with the bus's `mem_mask`. A masked
//! address below `ram_size` selects RAM at that offset. Otherwise, when a ROM
//! is bound, it sits directly above RAM: masked address `ram_size + i` selects
//! ROM byte `i`. Anything else is unmapped: reads return [`OPEN_BUS`] and
//! writes are discarded. RAM always takes precedence over ROM.
//!
//! A multi-byte access at `addr` touches the bytes at masked offsets
//! `(addr & mem_mask) + k` (wrapping, then masked again), each decoded on its
//! own, least significant byte first. With a mask of the form `2^n - 1` this
//! is `(addr + k) & mem_mask`. With any other mask the two differ, and the
//! bytes of one access may land on the same location: with mask `6`, both
//! bytes of a word at `1` go to location `0`, so such a word does not read
//! back as written. Accesses at `addr` and at `addr & mem_mask` agree for
//! every mask.
use vstd::prelude::*;
use crate::bytes::{le_bytes, le_value, pow256, lemma_le_bytes_len, lemma_le_round_trip,
    lemma_le_value_bound, lemma_pow256_mono, lemma_pow256_pos};

verus! {

/// The value read from an unmapped address.
pub const OPEN_BUS: u8 = 0xFF;

/// Why a memory configuration was refused.
#[derive(Debug, Clone, Copy, PartialEq, Eq, Structural)]
pub enum ConfigurationError {
    /// The RAM buffer holds fewer than `ram_size` bytes.
    RamTooSmall { ram_size: u64, ram_len: usize },
    /// The ROM, placed at `ram_size`, would extend past the 64-bit address space.
    RomOutOfRange { ram_size: u64, rom_len: usize },
}

/// A refused configuration, with the buffers that were offered handed back.
#[derive(Debug)]
pub struct Rejected {
    pub error: ConfigurationError,
    pub ram: Option<Vec<u8>>,
    pub rom: Option<Vec<u8>>,
}

/// The abstract state of a [`MemoryBus`].
pub ghost struct BusView {
    pub mem_mask: u64,
    pub ram_size: u64,
    /// `None` for a read-only configuration.
    pub ram: Option<Seq<u8>>,
    pub rom: Option<Seq<u8>>,
}

impl BusView {
    /// RAM, when bound, covers `ram_size` bytes, and ROM fits above it.
    pub open spec fn wf(self) -> bool {
        &&& (self.ram matches Some(ram) ==> self.ram_size <= ram.len())
        &&& (self.rom matches Some(rom) ==> self.ram_size + rom.len() <= u64::MAX)
    }

    /// The masked location of byte `k` of an access at `addr`.
    pub open spec fn loc(self, addr: u64, k: u64) -> u64 {
        (addr & self.mem_mask).wrapping_add(k) & self.mem_mask
    }

    /// Whether a masked location lies in the ROM window.
    pub open spec fn in_rom(self, m: u64) -> bool {
        self.rom matches Some(rom) && self.ram_size <= m && m - self.ram_size < rom.len()
    }

    /// The byte seen at masked location `m`.
    pub open spec fn byte_at(self, m: u64) -> u8 {
        if m < self.ram_size {
            match self.ram {
                Some(ram) => ram[m as int],
                None => OPEN_BUS,
            }
        } else if self.in_rom(m) {
            self.rom->0[m - self.ram_size]
        } else {
            OPEN_BUS
        }
    }

    /// The `w` bytes that an access of width `w` at `addr` reads.
    pub open spec fn read_bytes(self, addr: u64, w: nat) -> Seq<u8> {
        Seq::new(w, |k: int| self.byte_at(self.loc(addr, k as u64)))
    }

    /// The little-endian value that an access of width `w` at `addr` reads.
    pub open spec fn read_value(self, addr: u64, w: nat) -> nat {
        le_value(self.read_bytes(addr, w))
    }

    /// The state after writing byte `b` at masked location `m`: only RAM takes it.
    pub open spec fn with_byte(self, m: u64, b: u8) -> BusView {
        if m < self.ram_size && self.ram is Some {
            BusView { ram: Some(self.ram->0.update(m as int, b)), ..self }
        } else {
            self
        }
    }

    /// The state after writing `bytes` at `addr`, byte `k` at location `loc(addr, k)`,
    /// in increasing order of `k`.
    pub open spec fn stored(self, addr: u64, bytes: Seq<u8>) -> BusView
        decreases bytes.len(),
    {
        if bytes.len() == 0 {
            self
        } else {
            let k = (bytes.len() - 1) as int;
            self.stored(addr, bytes.drop_last()).with_byte(self.loc(addr, k as u64), bytes[k])
        }
    }

    /// Whether the `w` bytes of an access at `addr` are distinct RAM locations.
    pub open spec fn ram_span(self, addr: u64, w: nat) -> bool {
        &&& self.ram is Some
        &&& forall|k: u64| k < w ==> #[trigger] self.loc(addr, k) < self.ram_size
        &&& forall|j: u64, k: u64|
            j < k < w ==> #[trigger] self.loc(addr, j) != #[trigger] self.loc(addr, k)
    }
}

/// A memory bus over a RAM buffer and an optional ROM, both owned by the bus
/// while it is bound.
pub struct MemoryBus {
    mem_mask: u64,
    ram_size: u64,
    ram: Option<Vec<u8>>,
    rom: Option<Vec<u8>>,
}

impl MemoryBus {
    #[verifier::type_invariant]
    closed spec fn inv(&self) -> bool {
        self@.wf()
    }
}

impl View for MemoryBus {
    type V = BusView;

    closed spec fn view(&self) -> BusView {
        BusView {
            mem_mask: self.mem_mask,
            ram_size: self.ram_size,
            ram: match self.ram {
                Some(r) => Some(r@),
                None => None,
            },
            rom: match self.rom {
                Some(r) => Some(r@),
                None => None,
            },
        }
    }
}


/// The contents of an optional byte buffer.
pub open spec fn opt_bytes(b: Option<Vec<u8>>) -> Option<Seq<u8>> {
    match b {
        Some(v) => Some(v@),
        None => None,
    }
}

/// Whether a ROM of the given contents fits above `ram_size` in the address space.
pub open spec fn rom_fits(ram_size: u64, rom: Option<Vec<u8>>) -> bool {
    rom matches Some(v) ==> ram_size + v.len() <= u64::MAX
}

/// Writing keeps the configuration and well-formedness of a bus.
pub proof fn lemma_stored_wf(bus: BusView, addr: u64, bytes: Seq<u8>)
    requires
        bus.wf(),
    ensures
        bus.stored(addr, bytes).wf(),
        bus.stored(addr, bytes).mem_mask == bus.mem_mask,
        bus.stored(addr, bytes).ram_size == bus.ram_size,
        bus.stored(addr, bytes).rom == bus.rom,
        bus.stored(addr, bytes).ram is Some == bus.ram is Some,
    decreases bytes.len(),
{
    if bytes.len() > 0 {
        lemma_stored_wf(bus, addr, bytes.drop_last());
    }
}

proof fn lemma_mask_twice(x: u64, m: u64)
    by (bit_vector)
    ensures
        (x & m) & m == x & m,
{
}

/// Byte `k` of an access at an already masked address is at offset `k` from it.
proof fn lemma_loc_masked(bus: BusView, addr: u64, k: u64)
    ensures
        bus.loc(addr & bus.mem_mask, k) == bus.loc(addr, k),
        bus.loc(bus.loc(addr, k), 0) == bus.loc(addr, k),
{
    lemma_mask_twice(addr, bus.mem_mask);
    let l = (addr & bus.mem_mask).wrapping_add(k);
    lemma_mask_twice(l, bus.mem_mask);
}

/// Whether `m` is a low mask, `2^n - 1` for some `n` (all ones included).
pub open spec fn is_low_mask(m: u64) -> bool {
    m & ((m + 1) as u64) == 0
}

proof fn lemma_wrapping_add(x: u64, k: u64)
    ensures
        x.wrapping_add(k) == #[verifier::truncate] ((x + k) as u64),
{
    if x + k > u64::MAX {
        assert(#[verifier::truncate] ((x + k) as u64) == x + k - 0x1_0000_0000_0000_0000)
            by (bit_vector)
            requires
                x + k > u64::MAX,
        ;
    } else {
        assert(#[verifier::truncate] ((x + k) as u64) == x + k) by (bit_vector)
            requires
                x + k <= u64::MAX,
        ;
    }
}

proof fn lemma_low_mask_add(a: u64, k: u64, m: u64)
    by (bit_vector)
    requires
        m & ((m + 1) as u64) == 0,
    ensures
        (((a & m) + k) as u64) & m == ((a + k) as u64) & m,
{
}

/// Under a low mask, byte `k` of an access at `addr` is at `(addr + k) & mem_mask`
/// (wrapping): the address of each byte masked on its own. For other masks the
/// two placements differ, and the bus keeps `((addr & mem_mask) + k) & mem_mask`,
/// under which an access at `addr` and at `addr & mem_mask` always agree.
pub proof fn lemma_low_mask_placement(bus: BusView, addr: u64, k: u64)
    requires
        is_low_mask(bus.mem_mask),
    ensures
        bus.loc(addr, k) == addr.wrapping_add(k) & bus.mem_mask,
{
    let m = bus.mem_mask;
    lemma_low_mask_add(addr, k, m);
    lemma_wrapping_add(addr & m, k);
    lemma_wrapping_add(addr, k);
}

/// After writing `bytes` over distinct RAM locations, byte `j` is found at its location.
proof fn lemma_stored_byte(bus: BusView, addr: u64, bytes: Seq<u8>, j: int)
    requires
        bus.wf(),
        bus.ram_span(addr, bytes.len()),
        0 <= j < bytes.len(),
        bytes.len() <= 8,
    ensures
        bus.stored(addr, bytes).byte_at(bus.loc(addr, j as u64)) == bytes[j],
    decreases bytes.len(),
{
    let n = bytes.len() - 1;
    let prev = bus.stored(addr, bytes.drop_last());
    lemma_stored_wf(bus, addr, bytes.drop_last());
    assert(bus.loc(addr, n as u64) < bus.ram_size);
    if j < n {
        assert(bus.loc(addr, j as u64) != bus.loc(addr, n as u64));
        lemma_stored_byte(bus, addr, bytes.drop_last(), j);
    }
}

/// Reading back what was just written, at the same address and width, gives the
/// written value, whenever the bytes of the access are distinct RAM locations;
/// unaligned addresses included.
pub proof fn lemma_write_read_round_trip(bus: BusView, addr: u64, w: nat, v: nat)
    requires
        bus.wf(),
        bus.ram_span(addr, w),
        w <= 8,
        v < pow256(w),
    ensures
        bus.stored(addr, le_bytes(v, w)).read_value(addr, w) == v,
{
    let bytes = le_bytes(v, w);
    let after = bus.stored(addr, bytes);
    lemma_le_bytes_len(v, w);
    lemma_stored_wf(bus, addr, bytes);
    assert forall|k: int| 0 <= k < w implies #[trigger] after.read_bytes(addr, w)[k] == bytes[k] by {
        lemma_stored_byte(bus, addr, bytes, k);
    }
    assert(after.read_bytes(addr, w) =~= bytes);
    lemma_le_round_trip(v, w);
    lemma_pow256_pos(w);
    assert(v % pow256(w) == v) by (nonlinear_arith)
        requires v < pow256(w);
}

/// Under a mask of the form `2^n - 1`, the round trip holds whenever the
/// addresses `addr + k` (wrapping, `k` below the width), each masked, are
/// distinct and below `ram_size`.
pub proof fn lemma_write_read_round_trip_low_mask(bus: BusView, addr: u64, w: nat, v: nat)
    requires
        bus.wf(),
        bus.ram is Some,
        is_low_mask(bus.mem_mask),
        forall|k: u64| k < w ==> #[trigger] (addr.wrapping_add(k) & bus.mem_mask) < bus.ram_size,
        forall|j: u64, k: u64|
            j < k < w ==> #[trigger] (addr.wrapping_add(j) & bus.mem_mask) != #[trigger] (
            addr.wrapping_add(k) & bus.mem_mask),
        w <= 8,
        v < pow256(w),
    ensures
        bus.stored(addr, le_bytes(v, w)).read_value(addr, w) == v,
{
    assert forall|k: u64| k < w implies #[trigger] bus.loc(addr, k) < bus.ram_size by {
        lemma_low_mask_placement(bus, addr, k);
    }
    assert forall|j: u64, k: u64| j < k < w implies #[trigger] bus.loc(addr, j) != #[trigger] bus.loc(
        addr,
        k,
    ) by {
        lemma_low_mask_placement(bus, addr, j);
        lemma_low_mask_placement(bus, addr, k);
    }
    lemma_write_read_round_trip(bus, addr, w, v);
}

/// At an unmapped address (masked value at or above `ram_size` and outside the
/// ROM window) a byte read gives [`OPEN_BUS`] and a byte write changes nothing.
pub proof fn lemma_unmapped_access(bus: BusView, addr: u64, b: u8)
    requires
        bus.wf(),
        addr & bus.mem_mask >= bus.ram_size,
        !bus.in_rom(addr & bus.mem_mask),
    ensures
        bus.read_value(addr, 1) == OPEN_BUS,
        bus.stored(addr, le_bytes(b as nat, 1)) == bus,
{
    lemma_mask_twice(addr, bus.mem_mask);
    assert(bus.loc(addr, 0) == addr & bus.mem_mask);
    let s = bus.read_bytes(addr, 1);
    assert(s.drop_first() =~= Seq::<u8>::empty());
    assert(le_value(Seq::<u8>::empty()) == 0);
    assert(s[0] == OPEN_BUS);
    let bytes = le_bytes(b as nat, 1);
    lemma_le_bytes_len(b as nat, 1);
    assert(bytes.drop_last() =~= Seq::<u8>::empty());
    assert(bus.stored(addr, Seq::<u8>::empty()) == bus);
}

/// Masking an address first changes nothing: accesses at `addr` and at
/// `addr & mem_mask` read the same value and write the same bytes.
pub proof fn lemma_mask_wraps(bus: BusView, addr: u64, w: nat, bytes: Seq<u8>)
    ensures
        bus.read_value(addr, w) == bus.read_value(addr & bus.mem_mask, w),
        bus.stored(addr, bytes) == bus.stored(addr & bus.mem_mask, bytes),
    decreases bytes.len(),
{
    assert forall|k: int| 0 <= k < w implies #[trigger] bus.read_bytes(addr, w)[k]
        == bus.read_bytes(addr & bus.mem_mask, w)[k] by {
        lemma_loc_masked(bus, addr, k as u64);
    }
    assert(bus.read_bytes(addr, w) =~= bus.read_bytes(addr & bus.mem_mask, w));
    if bytes.len() > 0 {
        lemma_mask_wraps(bus, addr, w, bytes.drop_last());
        lemma_loc_masked(bus, addr, (bytes.len() - 1) as u64);
    }
}

/// A multi-byte read is decoded byte by byte: byte `k` of the result is what a
/// one-byte read at the `k`-th location gives, whether that location is in RAM,
/// in ROM or unmapped; a read that straddles the RAM/ROM boundary is no error.
/// Under a mask of the form `2^n - 1` that location is `(addr + k) & mem_mask`.
pub proof fn lemma_bytewise_decode(bus: BusView, addr: u64, w: nat, k: u64)
    requires
        k < w,
    ensures
        bus.read_bytes(addr, w)[k as int] as nat == bus.read_value(bus.loc(addr, k), 1),
        is_low_mask(bus.mem_mask) ==> bus.read_bytes(addr, w)[k as int] == bus.byte_at(
            addr.wrapping_add(k) & bus.mem_mask,
        ),
{
    if is_low_mask(bus.mem_mask) {
        lemma_low_mask_placement(bus, addr, k);
    }
    lemma_loc_masked(bus, addr, k);
    let s = bus.read_bytes(bus.loc(addr, k), 1);
    assert(s.drop_first() =~= Seq::<u8>::empty());
    assert(le_value(Seq::<u8>::empty()) == 0);
}

impl MemoryBus {
    /// Binds a read-only bus: no RAM, and `rom` (if any) mapped from `ram_size` up.
    /// Masked addresses below `ram_size` are unmapped.
    pub fn read_only(mem_mask: u64, ram_size: u64, rom: Option<Vec<u8>>) -> (r: Result<
        MemoryBus,
        Rejected,
    >)
        ensures
            r is Ok <==> rom_fits(ram_size, rom),
            r matches Ok(bus) ==> bus@ == (BusView {
                mem_mask,
                ram_size,
                ram: None,
                rom: opt_bytes(rom),
            }) && bus@.wf(),
            r matches Err(e) ==> e.error == (ConfigurationError::RomOutOfRange {
                ram_size,
                rom_len: rom->0.len(),
            }) && e.ram is None && opt_bytes(e.rom) == opt_bytes(rom),
    {
        if let Some(v) = &rom {
            if v.len() as u64 > u64::MAX - ram_size {
                let error = ConfigurationError::RomOutOfRange { ram_size, rom_len: v.len() };
                return Err(Rejected { error, ram: None, rom });
            }
        }
        Ok(MemoryBus { mem_mask, ram_size, ram: None, rom })
    }

    /// Binds a read/write RAM region of `ram_size` bytes (the first bytes of `ram`)
    /// with `rom` (if any) mapped directly above it.
    pub fn with_ram(mem_mask: u64, ram_size: u64, ram: Vec<u8>, rom: Option<Vec<u8>>) -> (r:
        Result<MemoryBus, Rejected>)
        ensures
            r is Ok <==> ram_size <= ram.len() && rom_fits(ram_size, rom),
            r matches Ok(bus) ==> bus@ == (BusView {
                mem_mask,
                ram_size,
                ram: Some(ram@),
                rom: opt_bytes(rom),
            }) && bus@.wf(),
            r is Err ==> opt_bytes(r->Err_0.ram) == Some(ram@),
            r is Err ==> opt_bytes(r->Err_0.rom) == opt_bytes(rom),
            ram.len() < ram_size ==> r is Err,
            ram.len() < ram_size ==> r->Err_0.error == (ConfigurationError::RamTooSmall {
                ram_size,
                ram_len: ram.len(),
            }),
            ram_size <= ram.len() && !rom_fits(ram_size, rom) ==> r is Err,
            ram_size <= ram.len() && !rom_fits(ram_size, rom) ==> r->Err_0.error == (
            ConfigurationError::RomOutOfRange { ram_size, rom_len: rom->0.len() }),
    {
        if (ram.len() as u64) < ram_size {
            let error = ConfigurationError::RamTooSmall { ram_size, ram_len: ram.len() };
            return Err(Rejected { error, ram: Some(ram), rom });
        }
        if let Some(v) = &rom {
            if v.len() as u64 > u64::MAX - ram_size {
                let error = ConfigurationError::RomOutOfRange { ram_size, rom_len: v.len() };
                return Err(Rejected { error, ram: Some(ram), rom });
            }
        }
        Ok(MemoryBus { mem_mask, ram_size, ram: Some(ram), rom })
    }

    /// The address mask applied to every access.
    pub fn mem_mask(&self) -> (r: u64)
        ensures
            r == self@.mem_mask,
    {
        self.mem_mask
    }

    /// The size of the RAM region in bytes.
    pub fn ram_size(&self) -> (r: u64)
        ensures
            r == self@.ram_size,
    {
        self.ram_size
    }

    /// Unbinds the bus, handing back the RAM and ROM buffers.
    pub fn into_parts(self) -> (r: (Option<Vec<u8>>, Option<Vec<u8>>))
        ensures
            opt_bytes(r.0) == self@.ram,
            opt_bytes(r.1) == self@.rom,
    {
        (self.ram, self.rom)
    }

    fn loc_of(&self, addr: u64, k: u64) -> (r: u64)
        ensures
            r == self@.loc(addr, k),
    {
        (addr & self.mem_mask).wrapping_add(k) & self.mem_mask
    }

    /// Reads `w` bytes at `addr` as a little-endian value.
    fn read_le(&self, addr: u64, w: u64) -> (r: u64)
        requires
            w <= 8,
        ensures
            r as nat == self@.read_value(addr, w as nat),
    {
        proof {
            use_type_invariant(self);
        }
        let ghost s = self@.read_bytes(addr, w as nat);
        let mut acc: u64 = 0;
        let mut k: u64 = w;
        proof {
            assert(s.subrange(w as int, w as int) =~= Seq::<u8>::empty());
            reveal_with_fuel(pow256, 8);
        }
        while k > 0
            invariant
                k <= w <= 8,
                s == self@.read_bytes(addr, w as nat),
                pow256(7) == 0x100_0000_0000_0000,
                acc as nat == le_value(s.subrange(k as int, w as int)),
            decreases k,
        {
            let b = self.fetch(self.loc_of(addr, k - 1));
            proof {
                lemma_le_value_bound(s.subrange(k as int, w as int));
                lemma_pow256_mono((w - k) as nat, 7);
                assert(s.subrange(k - 1, w as int).drop_first() =~= s.subrange(k as int, w as int));
            }
            acc = acc * 256 + b as u64;
            k = k - 1;
        }
        proof {
            assert(s.subrange(0, w as int) =~= s);
        }
        acc
    }

    /// Writes the `w` low-order bytes of `v` at `addr`, least significant first.
    fn write_le(&mut self, addr: u64, w: u64, v: u64)
        requires
            w <= 8,
        ensures
            final(self)@ == old(self)@.stored(addr, le_bytes(v as nat, w as nat)),
    {
        proof {
            use_type_invariant(&*self);
        }
        let ghost bytes = le_bytes(v as nat, w as nat);
        let ghost start = self@;
        proof {
            lemma_le_bytes_len(v as nat, w as nat);
            assert(bytes.subrange(0, w as int) =~= bytes);
            assert(bytes.take(0) =~= Seq::<u8>::empty());
        }
        let mut rest: u64 = v;
        let mut k: u64 = 0;
        while k < w
            invariant
                k <= w <= 8,
                bytes == le_bytes(v as nat, w as nat),
                bytes.len() == w,
                bytes.subrange(k as int, w as int) == le_bytes(rest as nat, (w - k) as nat),
                self@ == start.stored(addr, bytes.take(k as int)),
                start.wf(),
            decreases w - k,
        {
            proof {
                lemma_stored_wf(start, addr, bytes.take(k as int));
                assert(bytes.take(k + 1).drop_last() =~= bytes.take(k as int));
                let tail = bytes.subrange(k as int, w as int);
                assert(tail[0] == bytes[k as int]);
                assert(bytes.subrange(k + 1, w as int) =~= tail.drop_first());
                lemma_le_bytes_len(rest as nat / 256, (w - k - 1) as nat);
                assert(tail.drop_first() =~= le_bytes(rest as nat / 256, (w - k - 1) as nat));
            }
            let l = self.loc_of(addr, k);
            self.put(l, (rest % 256) as u8);
            rest = rest / 256;
            k = k + 1;
        }
        proof {
            assert(bytes.take(w as int) =~= bytes);
            lemma_stored_wf(start, addr, bytes);
        }
    }

    /// Reads one byte at `addr`.
    pub fn read_byte(&self, addr: u64) -> (r: u8)
        ensures
            r as nat == self@.read_value(addr, 1),
    {
        let v = self.read_le(addr, 1);
        proof {
            lemma_le_value_bound(self@.read_bytes(addr, 1));
            reveal_with_fuel(pow256, 2);
        }
        v as u8
    }

    /// Writes one byte at `addr`; bytes that fall outside RAM are discarded.
    pub fn write_byte(&mut self, addr: u64, value: u8)
        ensures
            final(self)@.wf(),
            final(self)@ == old(self)@.stored(addr, le_bytes(value as nat, 1)),
    {
        proof {
            use_type_invariant(&*self);
        }
        self.write_le(addr, 1, value as u64);
        proof {
            use_type_invariant(&*self);
        }
    }

    /// Reads 2 bytes at `addr`, little-endian, each byte decoded on its own.
    pub fn read_word(&self, addr: u64) -> (r: u16)
        ensures
            r as nat == self@.read_value(addr, 2),
    {
        let v = self.read_le(addr, 2);
        proof {
            lemma_le_value_bound(self@.read_bytes(addr, 2));
            reveal_with_fuel(pow256, 3);
        }
        v as u16
    }

    /// Writes 2 bytes, little-endian, at `addr`; bytes that fall outside RAM are discarded.
    pub fn write_word(&mut self, addr: u64, value: u16)
        ensures
            final(self)@.wf(),
            final(self)@ == old(self)@.stored(addr, le_bytes(value as nat, 2)),
    {
        proof {
            use_type_invariant(&*self);
        }
        self.write_le(addr, 2, value as u64);
        proof {
            use_type_invariant(&*self);
        }
    }

    /// Reads 4 bytes at `addr`, little-endian, each byte decoded on its own.
    pub fn read_dword(&self, addr: u64) -> (r: u32)
        ensures
            r as nat == self@.read_value(addr, 4),
    {
        let v = self.read_le(addr, 4);
        proof {
            lemma_le_value_bound(self@.read_bytes(addr, 4));
            reveal_with_fuel(pow256, 5);
        }
        v as u32
    }

    /// Writes 4 bytes, little-endian, at `addr`; bytes that fall outside RAM are discarded.
    pub fn write_dword(&mut self, addr: u64, value: u32)
        ensures
            final(self)@.wf(),
            final(self)@ == old(self)@.stored(addr, le_bytes(value as nat, 4)),
    {
        proof {
            use_type_invariant(&*self);
        }
        self.write_le(addr, 4, value as u64);
        proof {
            use_type_invariant(&*self);
        }
    }

    /// Reads 8 bytes at `addr`, little-endian, each byte decoded on its own.
    pub fn read_qword(&self, addr: u64) -> (r: u64)
        ensures
            r as nat == self@.read_value(addr, 8),
    {
        let v = self.read_le(addr, 8);
        v
    }

    /// Writes 8 bytes, little-endian, at `addr`; bytes that fall outside RAM are discarded.
    pub fn write_qword(&mut self, addr: u64, value: u64)
        ensures
            final(self)@.wf(),
            final(self)@ == old(self)@.stored(addr, le_bytes(value as nat, 8)),
    {
        proof {
            use_type_invariant(&*self);
        }
        self.write_le(addr, 8, value as u64);
        proof {
            use_type_invariant(&*self);
        }
    }

    /// The byte seen at an already masked location.
    fn fetch(&self, m: u64) -> (r: u8)
        ensures
            r == self@.byte_at(m),
    {
        proof {
            use_type_invariant(self);
        }
        if m < self.ram_size {
            match &self.ram {
                Some(ram) => {
                    assert(self@.ram == Some(ram@));
                    let n: usize = ram.len();
                    assert(m < n);
                    let i: usize = m as usize;
                    ram[i]
                },
                None => OPEN_BUS,
            }
        } else {
            match &self.rom {
                Some(rom) => {
                    assert(self@.rom == Some(rom@));
                    let n: usize = rom.len();
                    if m - self.ram_size < n as u64 {
                        let i: usize = (m - self.ram_size) as usize;
                        rom[i]
                    } else {
                        OPEN_BUS
                    }
                },
                None => OPEN_BUS,
            }
        }
    }

    /// Writes one byte at an already masked location; discarded outside RAM.
    fn put(&mut self, m: u64, b: u8)
        ensures
            final(self)@ == old(self)@.with_byte(m, b),
    {
        proof {
            use_type_invariant(&*self);
        }
        if m < self.ram_size {
            let mut ram: Option<Vec<u8>> = None;
            std::mem::swap(&mut ram, &mut self.ram);
            if let Some(r) = &mut ram {
                let n: usize = r.len();
                assert(m < n);
                r.set(m as usize, b);
            }
            self.ram = ram;
        }
    }
}

} // verus!

//! Start-of-day structures handed to a PVH guest by the hypervisor (x86/HVM
//! direct boot ABI), with their little-endian wire layout.
use vstd::prelude::*;
use vstd::bytes::*;

verus! {

/// The start-info structure found at the address passed in `%ebx`.
#[derive(Debug, Copy, Clone)]
pub struct HvmStartInfo {
    pub magic: u32,
    pub version: u32,
    pub flags: u32,
    pub nr_modules: u32,
    pub modlist_paddr: u64,
    pub cmdline_paddr: u64,
    pub rsdp_paddr: u64,
    pub memmap_paddr: u64,
    pub memmap_entries: u32,
    pub reserved: u32,
}

/// One entry of the module list.
#[derive(Debug, Copy, Clone)]
pub struct HvmModlistEntry {
    pub paddr: u64,
    pub size: u64,
    pub cmdline_paddr: u64,
    pub reserved: u64,
}

/// One entry of the memory map table.
#[derive(Debug, Copy, Clone)]
pub struct HvmMemmapTableEntry {
    pub addr: u64,
    pub size: u64,
    pub type_: u32,
    pub reserved: u32,
}

impl HvmStartInfo {
    /// Magic value of the structure.
    pub const XEN_HVM_START_MAGIC_VALUE: u32 = 0x336ec578;

    /// Size in bytes of the wire layout.
    pub const SIZE: usize = 56;
}

impl HvmModlistEntry {
    /// Size in bytes of the wire layout.
    pub const SIZE: usize = 32;
}

impl HvmMemmapTableEntry {
    /// Size in bytes of the wire layout.
    pub const SIZE: usize = 24;
}


impl Default for HvmStartInfo {
    fn default() -> (r: Self)
        ensures
            r == (HvmStartInfo {
                magic: 0,
                version: 0,
                flags: 0,
                nr_modules: 0,
                modlist_paddr: 0,
                cmdline_paddr: 0,
                rsdp_paddr: 0,
                memmap_paddr: 0,
                memmap_entries: 0,
                reserved: 0,
            }),
    {
        HvmStartInfo {
            magic: 0,
            version: 0,
            flags: 0,
            nr_modules: 0,
            modlist_paddr: 0,
            cmdline_paddr: 0,
            rsdp_paddr: 0,
            memmap_paddr: 0,
            memmap_entries: 0,
            reserved: 0,
        }
    }
}

impl Default for HvmModlistEntry {
    fn default() -> (r: Self)
        ensures
            r == (HvmModlistEntry { paddr: 0, size: 0, cmdline_paddr: 0, reserved: 0 }),
    {
        HvmModlistEntry { paddr: 0, size: 0, cmdline_paddr: 0, reserved: 0 }
    }
}

impl Default for HvmMemmapTableEntry {
    fn default() -> (r: Self)
        ensures
            r == (HvmMemmapTableEntry { addr: 0, size: 0, type_: 0, reserved: 0 }),
    {
        HvmMemmapTableEntry { addr: 0, size: 0, type_: 0, reserved: 0 }
    }
}

/// The E820 memory types known to the kernel.
#[derive(Copy, Clone, Debug, PartialEq, Eq, Structural)]
pub enum E820Type {
    Ram,
    Reserved,
    Acpi,
    Nvs,
    Unusable,
    Pmem,
    Pram,
    SoftReserved,
    ReservedKern,
}

/// The numeric E820 code of each type.
pub open spec fn e820_code(t: E820Type) -> u32 {
    match t {
        E820Type::Ram => 1,
        E820Type::Reserved => 2,
        E820Type::Acpi => 3,
        E820Type::Nvs => 4,
        E820Type::Unusable => 5,
        E820Type::Pmem => 7,
        E820Type::Pram => 12,
        E820Type::SoftReserved => 0xefffffff,
        E820Type::ReservedKern => 128,
    }
}

/// Whether `v` is the code of one of the known types.
pub open spec fn is_known_e820_code(v: u32) -> bool {
    v == 1 || v == 2 || v == 3 || v == 4 || v == 5 || v == 7 || v == 12 || v == 0xefffffff
        || v == 128
}

/// The type of an E820 code; codes that are not known read as `Reserved`.
pub open spec fn e820_from_code(v: u32) -> E820Type {
    if v == 1 {
        E820Type::Ram
    } else if v == 2 {
        E820Type::Reserved
    } else if v == 3 {
        E820Type::Acpi
    } else if v == 4 {
        E820Type::Nvs
    } else if v == 5 {
        E820Type::Unusable
    } else if v == 7 {
        E820Type::Pmem
    } else if v == 12 {
        E820Type::Pram
    } else if v == 0xefffffff {
        E820Type::SoftReserved
    } else if v == 128 {
        E820Type::ReservedKern
    } else {
        E820Type::Reserved
    }
}

impl E820Type {
    /// The numeric E820 code of this type.
    pub fn as_u32(self) -> (r: u32)
        ensures
            r == e820_code(self),
    {
        match self {
            E820Type::Ram => 1,
            E820Type::Reserved => 2,
            E820Type::Acpi => 3,
            E820Type::Nvs => 4,
            E820Type::Unusable => 5,
            E820Type::Pmem => 7,
            E820Type::Pram => 12,
            E820Type::SoftReserved => 0xefffffff,
            E820Type::ReservedKern => 128,
        }
    }
}

impl From<u32> for E820Type {
    fn from(val: u32) -> (r: Self) {
        match val {
            1 => E820Type::Ram,
            2 => E820Type::Reserved,
            3 => E820Type::Acpi,
            4 => E820Type::Nvs,
            5 => E820Type::Unusable,
            7 => E820Type::Pmem,
            12 => E820Type::Pram,
            0xefffffff => E820Type::SoftReserved,
            128 => E820Type::ReservedKern,
            _ => E820Type::Reserved,
        }
    }
}

impl vstd::std_specs::convert::FromSpecImpl<u32> for E820Type {
    open spec fn obeys_from_spec() -> bool {
        true
    }

    open spec fn from_spec(v: u32) -> E820Type {
        e820_from_code(v)
    }
}

/// Converting a type to its code and back gives the same type.
pub proof fn lemma_e820_code_roundtrip(t: E820Type)
    ensures
        is_known_e820_code(e820_code(t)),
        e820_from_code(e820_code(t)) == t,
{
}

/// A code converts to a type whose code is itself exactly when the code is
/// known; every other code reads as `Reserved`.
pub proof fn lemma_e820_from_code(v: u32)
    ensures
        (e820_code(e820_from_code(v)) == v) <==> is_known_e820_code(v),
        !is_known_e820_code(v) ==> e820_from_code(v) == E820Type::Reserved,
{
}

// ---------------------------------------------------------------------------
// Little-endian field readers and writers
// ---------------------------------------------------------------------------

/// The little-endian `u32` stored at `off` in `b`.
pub open spec fn le_u32_at(b: Seq<u8>, off: int) -> u32 {
    spec_u32_from_le_bytes(b.subrange(off, off + 4))
}

/// The little-endian `u64` stored at `off` in `b`.
pub open spec fn le_u64_at(b: Seq<u8>, off: int) -> u64 {
    spec_u64_from_le_bytes(b.subrange(off, off + 8))
}

fn read_u32(b: &[u8], off: usize) -> (r: u32)
    requires
        off + 4 <= b@.len(),
    ensures
        r == le_u32_at(b@, off as int),
{
    let n = b.len();
    assert(n == b@.len());
    let piece = vstd::slice::slice_subrange(b, off, off + 4);
    u32_from_le_bytes(piece)
}

fn read_u64(b: &[u8], off: usize) -> (r: u64)
    requires
        off + 8 <= b@.len(),
    ensures
        r == le_u64_at(b@, off as int),
{
    let n = b.len();
    assert(n == b@.len());
    let piece = vstd::slice::slice_subrange(b, off, off + 8);
    u64_from_le_bytes(piece)
}

fn push_u32(out: &mut Vec<u8>, x: u32)
    ensures
        final(out)@ == old(out)@ + spec_u32_to_le_bytes(x),
{
    let mut bytes = u32_to_le_bytes(x);
    out.append(&mut bytes);
}

fn push_u64(out: &mut Vec<u8>, x: u64)
    ensures
        final(out)@ == old(out)@ + spec_u64_to_le_bytes(x),
{
    let mut bytes = u64_to_le_bytes(x);
    out.append(&mut bytes);
}

// ---------------------------------------------------------------------------
// Wire layouts
// ---------------------------------------------------------------------------

/// The 56 bytes of `HvmStartInfo` as the hypervisor lays them out.
pub open spec fn start_info_bytes(s: HvmStartInfo) -> Seq<u8> {
    spec_u32_to_le_bytes(s.magic) + spec_u32_to_le_bytes(s.version)
        + spec_u32_to_le_bytes(s.flags) + spec_u32_to_le_bytes(s.nr_modules)
        + spec_u64_to_le_bytes(s.modlist_paddr) + spec_u64_to_le_bytes(s.cmdline_paddr)
        + spec_u64_to_le_bytes(s.rsdp_paddr) + spec_u64_to_le_bytes(s.memmap_paddr)
        + spec_u32_to_le_bytes(s.memmap_entries) + spec_u32_to_le_bytes(s.reserved)
}

/// The `HvmStartInfo` that the first 56 bytes of `b` describe.
pub open spec fn start_info_from(b: Seq<u8>) -> HvmStartInfo {
    HvmStartInfo {
        magic: le_u32_at(b, 0),
        version: le_u32_at(b, 4),
        flags: le_u32_at(b, 8),
        nr_modules: le_u32_at(b, 12),
        modlist_paddr: le_u64_at(b, 16),
        cmdline_paddr: le_u64_at(b, 24),
        rsdp_paddr: le_u64_at(b, 32),
        memmap_paddr: le_u64_at(b, 40),
        memmap_entries: le_u32_at(b, 48),
        reserved: le_u32_at(b, 52),
    }
}

/// The 32 bytes of `HvmModlistEntry`.
pub open spec fn modlist_entry_bytes(e: HvmModlistEntry) -> Seq<u8> {
    spec_u64_to_le_bytes(e.paddr) + spec_u64_to_le_bytes(e.size)
        + spec_u64_to_le_bytes(e.cmdline_paddr) + spec_u64_to_le_bytes(e.reserved)
}

/// The `HvmModlistEntry` that the first 32 bytes of `b` describe.
pub open spec fn modlist_entry_from(b: Seq<u8>) -> HvmModlistEntry {
    HvmModlistEntry {
        paddr: le_u64_at(b, 0),
        size: le_u64_at(b, 8),
        cmdline_paddr: le_u64_at(b, 16),
        reserved: le_u64_at(b, 24),
    }
}

/// The 24 bytes of `HvmMemmapTableEntry`.
pub open spec fn memmap_entry_bytes(e: HvmMemmapTableEntry) -> Seq<u8> {
    spec_u64_to_le_bytes(e.addr) + spec_u64_to_le_bytes(e.size)
        + spec_u32_to_le_bytes(e.type_) + spec_u32_to_le_bytes(e.reserved)
}

/// The `HvmMemmapTableEntry` that the first 24 bytes of `b` describe.
pub open spec fn memmap_entry_from(b: Seq<u8>) -> HvmMemmapTableEntry {
    HvmMemmapTableEntry {
        addr: le_u64_at(b, 0),
        size: le_u64_at(b, 8),
        type_: le_u32_at(b, 16),
        reserved: le_u32_at(b, 20),
    }
}

impl HvmStartInfo {
    /// Reads the structure from the start of `b`; `None` when `b` is shorter
    /// than the structure.
    pub fn from_bytes(b: &[u8]) -> (r: Option<HvmStartInfo>)
        ensures
            r == (if b@.len() >= 56 {
                Some(start_info_from(b@))
            } else {
                None
            }),
    {
        if b.len() < Self::SIZE {
            return None;
        }
        Some(HvmStartInfo {
            magic: read_u32(b, 0),
            version: read_u32(b, 4),
            flags: read_u32(b, 8),
            nr_modules: read_u32(b, 12),
            modlist_paddr: read_u64(b, 16),
            cmdline_paddr: read_u64(b, 24),
            rsdp_paddr: read_u64(b, 32),
            memmap_paddr: read_u64(b, 40),
            memmap_entries: read_u32(b, 48),
            reserved: read_u32(b, 52),
        })
    }

    /// Writes the structure in its wire layout.
    pub fn to_bytes(&self) -> (r: Vec<u8>)
        ensures
            r@ == start_info_bytes(*self),
    {
        let mut out: Vec<u8> = Vec::new();
        push_u32(&mut out, self.magic);
        push_u32(&mut out, self.version);
        push_u32(&mut out, self.flags);
        push_u32(&mut out, self.nr_modules);
        push_u64(&mut out, self.modlist_paddr);
        push_u64(&mut out, self.cmdline_paddr);
        push_u64(&mut out, self.rsdp_paddr);
        push_u64(&mut out, self.memmap_paddr);
        push_u32(&mut out, self.memmap_entries);
        push_u32(&mut out, self.reserved);
        assert(out@ =~= start_info_bytes(*self));
        out
    }
}

impl HvmModlistEntry {
    /// Reads the entry from the start of `b`; `None` when `b` is too short.
    pub fn from_bytes(b: &[u8]) -> (r: Option<HvmModlistEntry>)
        ensures
            r == (if b@.len() >= 32 {
                Some(modlist_entry_from(b@))
            } else {
                None
            }),
    {
        if b.len() < Self::SIZE {
            return None;
        }
        Some(HvmModlistEntry {
            paddr: read_u64(b, 0),
            size: read_u64(b, 8),
            cmdline_paddr: read_u64(b, 16),
            reserved: read_u64(b, 24),
        })
    }

    /// Writes the entry in its wire layout.
    pub fn to_bytes(&self) -> (r: Vec<u8>)
        ensures
            r@ == modlist_entry_bytes(*self),
    {
        let mut out: Vec<u8> = Vec::new();
        push_u64(&mut out, self.paddr);
        push_u64(&mut out, self.size);
        push_u64(&mut out, self.cmdline_paddr);
        push_u64(&mut out, self.reserved);
        assert(out@ =~= modlist_entry_bytes(*self));
        out
    }
}

impl HvmMemmapTableEntry {
    /// Reads the entry from the start of `b`; `None` when `b` is too short.
    pub fn from_bytes(b: &[u8]) -> (r: Option<HvmMemmapTableEntry>)
        ensures
            r == (if b@.len() >= 24 {
                Some(memmap_entry_from(b@))
            } else {
                None
            }),
    {
        if b.len() < Self::SIZE {
            return None;
        }
        Some(HvmMemmapTableEntry {
            addr: read_u64(b, 0),
            size: read_u64(b, 8),
            type_: read_u32(b, 16),
            reserved: read_u32(b, 20),
        })
    }

    /// Writes the entry in its wire layout.
    pub fn to_bytes(&self) -> (r: Vec<u8>)
        ensures
            r@ == memmap_entry_bytes(*self),
    {
        let mut out: Vec<u8> = Vec::new();
        push_u64(&mut out, self.addr);
        push_u64(&mut out, self.size);
        push_u32(&mut out, self.type_);
        push_u32(&mut out, self.reserved);
        assert(out@ =~= memmap_entry_bytes(*self));
        out
    }
}


// ---------------------------------------------------------------------------
// Layout laws
// ---------------------------------------------------------------------------

proof fn lemma_le_pieces()
    ensures
        forall|x: u32| #[trigger] spec_u32_to_le_bytes(x).len() == 4,
        forall|x: u64| #[trigger] spec_u64_to_le_bytes(x).len() == 8,
        forall|x: u32| spec_u32_from_le_bytes(#[trigger] spec_u32_to_le_bytes(x)) == x,
        forall|x: u64| spec_u64_from_le_bytes(#[trigger] spec_u64_to_le_bytes(x)) == x,
        forall|b: Seq<u8>| b.len() == 4 ==> #[trigger] spec_u32_to_le_bytes(spec_u32_from_le_bytes(b)) == b,
        forall|b: Seq<u8>| b.len() == 8 ==> #[trigger] spec_u64_to_le_bytes(spec_u64_from_le_bytes(b)) == b,
{
    lemma_auto_spec_u32_to_from_le_bytes();
    lemma_auto_spec_u64_to_from_le_bytes();
    assert forall|x: u32| spec_u32_from_le_bytes(#[trigger] spec_u32_to_le_bytes(x)) == x by {
        assert(spec_u32_to_le_bytes(x).len() == 4);
    }
    assert forall|x: u64| spec_u64_from_le_bytes(#[trigger] spec_u64_to_le_bytes(x)) == x by {
        assert(spec_u64_to_le_bytes(x).len() == 8);
    }
}

/// Reading back the bytes written for a start-info structure gives the same
/// structure, and the layout is 56 bytes long.
pub proof fn lemma_start_info_decode_encode(s: HvmStartInfo)
    ensures
        start_info_bytes(s).len() == 56,
        start_info_from(start_info_bytes(s)) == s,
{
    lemma_le_pieces();
    let b = start_info_bytes(s);
    assert(b.subrange(0, 4) =~= spec_u32_to_le_bytes(s.magic));
    assert(b.subrange(4, 8) =~= spec_u32_to_le_bytes(s.version));
    assert(b.subrange(8, 12) =~= spec_u32_to_le_bytes(s.flags));
    assert(b.subrange(12, 16) =~= spec_u32_to_le_bytes(s.nr_modules));
    assert(b.subrange(16, 24) =~= spec_u64_to_le_bytes(s.modlist_paddr));
    assert(b.subrange(24, 32) =~= spec_u64_to_le_bytes(s.cmdline_paddr));
    assert(b.subrange(32, 40) =~= spec_u64_to_le_bytes(s.rsdp_paddr));
    assert(b.subrange(40, 48) =~= spec_u64_to_le_bytes(s.memmap_paddr));
    assert(b.subrange(48, 52) =~= spec_u32_to_le_bytes(s.memmap_entries));
    assert(b.subrange(52, 56) =~= spec_u32_to_le_bytes(s.reserved));
}

/// Any 56 bytes are the layout of exactly the start-info structure read from them.
pub proof fn lemma_start_info_encode_decode(b: Seq<u8>)
    requires
        b.len() == 56,
    ensures
        start_info_bytes(start_info_from(b)) == b,
{
    lemma_le_pieces();
    assert(start_info_bytes(start_info_from(b)) =~= b.subrange(0, 4) + b.subrange(4, 8)
        + b.subrange(8, 12) + b.subrange(12, 16) + b.subrange(16, 24) + b.subrange(24, 32)
        + b.subrange(32, 40) + b.subrange(40, 48) + b.subrange(48, 52) + b.subrange(52, 56));
    assert(b =~= b.subrange(0, 4) + b.subrange(4, 8)
        + b.subrange(8, 12) + b.subrange(12, 16) + b.subrange(16, 24) + b.subrange(24, 32)
        + b.subrange(32, 40) + b.subrange(40, 48) + b.subrange(48, 52) + b.subrange(52, 56));
}

/// Reading back the bytes written for a module-list entry gives the same entry.
pub proof fn lemma_modlist_entry_decode_encode(e: HvmModlistEntry)
    ensures
        modlist_entry_bytes(e).len() == 32,
        modlist_entry_from(modlist_entry_bytes(e)) == e,
{
    lemma_le_pieces();
    let b = modlist_entry_bytes(e);
    assert(b.subrange(0, 8) =~= spec_u64_to_le_bytes(e.paddr));
    assert(b.subrange(8, 16) =~= spec_u64_to_le_bytes(e.size));
    assert(b.subrange(16, 24) =~= spec_u64_to_le_bytes(e.cmdline_paddr));
    assert(b.subrange(24, 32) =~= spec_u64_to_le_bytes(e.reserved));
}

/// Any 32 bytes are the layout of the module-list entry read from them.
pub proof fn lemma_modlist_entry_encode_decode(b: Seq<u8>)
    requires
        b.len() == 32,
    ensures
        modlist_entry_bytes(modlist_entry_from(b)) == b,
{
    lemma_le_pieces();
    assert(modlist_entry_bytes(modlist_entry_from(b)) =~= b.subrange(0, 8) + b.subrange(8, 16)
        + b.subrange(16, 24) + b.subrange(24, 32));
    assert(b =~= b.subrange(0, 8) + b.subrange(8, 16) + b.subrange(16, 24) + b.subrange(24, 32));
}

/// Reading back the bytes written for a memory-map entry gives the same entry.
pub proof fn lemma_memmap_entry_decode_encode(e: HvmMemmapTableEntry)
    ensures
        memmap_entry_bytes(e).len() == 24,
        memmap_entry_from(memmap_entry_bytes(e)) == e,
{
    lemma_le_pieces();
    let b = memmap_entry_bytes(e);
    assert(b.subrange(0, 8) =~= spec_u64_to_le_bytes(e.addr));
    assert(b.subrange(8, 16) =~= spec_u64_to_le_bytes(e.size));
    assert(b.subrange(16, 20) =~= spec_u32_to_le_bytes(e.type_));
    assert(b.subrange(20, 24) =~= spec_u32_to_le_bytes(e.reserved));
}

/// Any 24 bytes are the layout of the memory-map entry read from them.
pub proof fn lemma_memmap_entry_encode_decode(b: Seq<u8>)
    requires
        b.len() == 24,
    ensures
        memmap_entry_bytes(memmap_entry_from(b)) == b,
{
    lemma_le_pieces();
    assert(memmap_entry_bytes(memmap_entry_from(b)) =~= b.subrange(0, 8) + b.subrange(8, 16)
        + b.subrange(16, 20) + b.subrange(20, 24));
    assert(b =~= b.subrange(0, 8) + b.subrange(8, 16) + b.subrange(16, 20) + b.subrange(20, 24));
}

/// Each field of the start-info structure is read from its place in the
/// hypervisor's layout, little-endian: `magic` from bytes 0..4, `version`
/// 4..8, `flags` 8..12, `nr_modules` 12..16, `modlist_paddr` 16..24,
/// `cmdline_paddr` 24..32, `rsdp_paddr` 32..40, `memmap_paddr` 40..48,
/// `memmap_entries` 48..52, `reserved` 52..56.
pub proof fn lemma_start_info_fields_read(b: Seq<u8>)
    requires
        b.len() >= 56,
    ensures
        start_info_from(b).magic == spec_u32_from_le_bytes(b.subrange(0, 4)),
        start_info_from(b).version == spec_u32_from_le_bytes(b.subrange(4, 8)),
        start_info_from(b).flags == spec_u32_from_le_bytes(b.subrange(8, 12)),
        start_info_from(b).nr_modules == spec_u32_from_le_bytes(b.subrange(12, 16)),
        start_info_from(b).modlist_paddr == spec_u64_from_le_bytes(b.subrange(16, 24)),
        start_info_from(b).cmdline_paddr == spec_u64_from_le_bytes(b.subrange(24, 32)),
        start_info_from(b).rsdp_paddr == spec_u64_from_le_bytes(b.subrange(32, 40)),
        start_info_from(b).memmap_paddr == spec_u64_from_le_bytes(b.subrange(40, 48)),
        start_info_from(b).memmap_entries == spec_u32_from_le_bytes(b.subrange(48, 52)),
        start_info_from(b).reserved == spec_u32_from_le_bytes(b.subrange(52, 56)),
{
}

/// Each field of the start-info structure is written at its place in the
/// hypervisor's layout, little-endian (the places of
/// `lemma_start_info_fields_read`).
pub proof fn lemma_start_info_fields_written(s: HvmStartInfo)
    ensures
        start_info_bytes(s).len() == 56,
        start_info_bytes(s).subrange(0, 4) == spec_u32_to_le_bytes(s.magic),
        start_info_bytes(s).subrange(4, 8) == spec_u32_to_le_bytes(s.version),
        start_info_bytes(s).subrange(8, 12) == spec_u32_to_le_bytes(s.flags),
        start_info_bytes(s).subrange(12, 16) == spec_u32_to_le_bytes(s.nr_modules),
        start_info_bytes(s).subrange(16, 24) == spec_u64_to_le_bytes(s.modlist_paddr),
        start_info_bytes(s).subrange(24, 32) == spec_u64_to_le_bytes(s.cmdline_paddr),
        start_info_bytes(s).subrange(32, 40) == spec_u64_to_le_bytes(s.rsdp_paddr),
        start_info_bytes(s).subrange(40, 48) == spec_u64_to_le_bytes(s.memmap_paddr),
        start_info_bytes(s).subrange(48, 52) == spec_u32_to_le_bytes(s.memmap_entries),
        start_info_bytes(s).subrange(52, 56) == spec_u32_to_le_bytes(s.reserved),
{
    lemma_le_pieces();
    let b = start_info_bytes(s);
    assert(b.subrange(0, 4) =~= spec_u32_to_le_bytes(s.magic));
    assert(b.subrange(4, 8) =~= spec_u32_to_le_bytes(s.version));
    assert(b.subrange(8, 12) =~= spec_u32_to_le_bytes(s.flags));
    assert(b.subrange(12, 16) =~= spec_u32_to_le_bytes(s.nr_modules));
    assert(b.subrange(16, 24) =~= spec_u64_to_le_bytes(s.modlist_paddr));
    assert(b.subrange(24, 32) =~= spec_u64_to_le_bytes(s.cmdline_paddr));
    assert(b.subrange(32, 40) =~= spec_u64_to_le_bytes(s.rsdp_paddr));
    assert(b.subrange(40, 48) =~= spec_u64_to_le_bytes(s.memmap_paddr));
    assert(b.subrange(48, 52) =~= spec_u32_to_le_bytes(s.memmap_entries));
    assert(b.subrange(52, 56) =~= spec_u32_to_le_bytes(s.reserved));
}

/// Each field of a module-list entry is read from its place, little-endian:
/// `paddr` from bytes 0..8, `size` 8..16, `cmdline_paddr` 16..24, `reserved`
/// 24..32.
pub proof fn lemma_modlist_entry_fields_read(b: Seq<u8>)
    requires
        b.len() >= 32,
    ensures
        modlist_entry_from(b).paddr == spec_u64_from_le_bytes(b.subrange(0, 8)),
        modlist_entry_from(b).size == spec_u64_from_le_bytes(b.subrange(8, 16)),
        modlist_entry_from(b).cmdline_paddr == spec_u64_from_le_bytes(b.subrange(16, 24)),
        modlist_entry_from(b).reserved == spec_u64_from_le_bytes(b.subrange(24, 32)),
{
}

/// Each field of a module-list entry is written at its place, little-endian.
pub proof fn lemma_modlist_entry_fields_written(e: HvmModlistEntry)
    ensures
        modlist_entry_bytes(e).len() == 32,
        modlist_entry_bytes(e).subrange(0, 8) == spec_u64_to_le_bytes(e.paddr),
        modlist_entry_bytes(e).subrange(8, 16) == spec_u64_to_le_bytes(e.size),
        modlist_entry_bytes(e).subrange(16, 24) == spec_u64_to_le_bytes(e.cmdline_paddr),
        modlist_entry_bytes(e).subrange(24, 32) == spec_u64_to_le_bytes(e.reserved),
{
    lemma_le_pieces();
    let b = modlist_entry_bytes(e);
    assert(b.subrange(0, 8) =~= spec_u64_to_le_bytes(e.paddr));
    assert(b.subrange(8, 16) =~= spec_u64_to_le_bytes(e.size));
    assert(b.subrange(16, 24) =~= spec_u64_to_le_bytes(e.cmdline_paddr));
    assert(b.subrange(24, 32) =~= spec_u64_to_le_bytes(e.reserved));
}

/// Each field of a memory-map entry is read from its place, little-endian:
/// `addr` from bytes 0..8, `size` 8..16, `type_` 16..20, `reserved` 20..24.
pub proof fn lemma_memmap_entry_fields_read(b: Seq<u8>)
    requires
        b.len() >= 24,
    ensures
        memmap_entry_from(b).addr == spec_u64_from_le_bytes(b.subrange(0, 8)),
        memmap_entry_from(b).size == spec_u64_from_le_bytes(b.subrange(8, 16)),
        memmap_entry_from(b).type_ == spec_u32_from_le_bytes(b.subrange(16, 20)),
        memmap_entry_from(b).reserved == spec_u32_from_le_bytes(b.subrange(20, 24)),
{
}

/// Each field of a memory-map entry is written at its place, little-endian.
pub proof fn lemma_memmap_entry_fields_written(e: HvmMemmapTableEntry)
    ensures
        memmap_entry_bytes(e).len() == 24,
        memmap_entry_bytes(e).subrange(0, 8) == spec_u64_to_le_bytes(e.addr),
        memmap_entry_bytes(e).subrange(8, 16) == spec_u64_to_le_bytes(e.size),
        memmap_entry_bytes(e).subrange(16, 20) == spec_u32_to_le_bytes(e.type_),
        memmap_entry_bytes(e).subrange(20, 24) == spec_u32_to_le_bytes(e.reserved),
{
    lemma_le_pieces();
    let b = memmap_entry_bytes(e);
    assert(b.subrange(0, 8) =~= spec_u64_to_le_bytes(e.addr));
    assert(b.subrange(8, 16) =~= spec_u64_to_le_bytes(e.size));
    assert(b.subrange(16, 20) =~= spec_u32_to_le_bytes(e.type_));
    assert(b.subrange(20, 24) =~= spec_u32_to_le_bytes(e.reserved));
}

} // verus!

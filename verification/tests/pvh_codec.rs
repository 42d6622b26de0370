use dragon_net::pvh_param::{E820Type, HvmMemmapTableEntry, HvmModlistEntry, HvmStartInfo};

fn sample_start_info() -> HvmStartInfo {
    HvmStartInfo {
        magic: HvmStartInfo::XEN_HVM_START_MAGIC_VALUE,
        version: 1,
        flags: 0x11,
        nr_modules: 2,
        modlist_paddr: 0x1000,
        cmdline_paddr: 0x2000,
        rsdp_paddr: 0x3000,
        memmap_paddr: 0x4000,
        memmap_entries: 5,
        reserved: 0,
    }
}

#[test]
fn start_info_bytes_are_little_endian_fields() {
    let b = sample_start_info().to_bytes();
    assert_eq!(b.len(), 56);
    assert_eq!(&b[0..4], &[0x78, 0xc5, 0x6e, 0x33]);
    assert_eq!(&b[4..8], &[1, 0, 0, 0]);
    assert_eq!(&b[16..24], &[0x00, 0x10, 0, 0, 0, 0, 0, 0]);
    assert_eq!(&b[48..52], &[5, 0, 0, 0]);
}

#[test]
fn start_info_round_trip() {
    let s = sample_start_info();
    let back = HvmStartInfo::from_bytes(&s.to_bytes()).unwrap();
    assert_eq!(back.magic, s.magic);
    assert_eq!(back.version, 1);
    assert_eq!(back.flags, 0x11);
    assert_eq!(back.nr_modules, 2);
    assert_eq!(back.modlist_paddr, 0x1000);
    assert_eq!(back.cmdline_paddr, 0x2000);
    assert_eq!(back.rsdp_paddr, 0x3000);
    assert_eq!(back.memmap_paddr, 0x4000);
    assert_eq!(back.memmap_entries, 5);
    assert_eq!(back.magic, 0x336ec578);
}

#[test]
fn bytes_round_trip_through_start_info() {
    let bytes: Vec<u8> = (0u8..56).collect();
    let s = HvmStartInfo::from_bytes(&bytes).unwrap();
    assert_eq!(s.magic, 0x0302_0100);
    assert_eq!(s.to_bytes(), bytes);
}

#[test]
fn short_buffers_are_refused() {
    assert!(HvmStartInfo::from_bytes(&[0u8; 55]).is_none());
    assert!(HvmModlistEntry::from_bytes(&[0u8; 31]).is_none());
    assert!(HvmMemmapTableEntry::from_bytes(&[0u8; 23]).is_none());
    assert!(HvmStartInfo::from_bytes(&[0u8; 60]).is_some());
}

#[test]
fn longer_buffer_reads_its_front() {
    let mut bytes = vec![0u8; 64];
    bytes[0] = 7;
    bytes[56] = 9;
    let e = HvmModlistEntry::from_bytes(&bytes).unwrap();
    assert_eq!(e.paddr, 7);
    assert_eq!(e.reserved, 0);
}

#[test]
fn modlist_and_memmap_round_trip() {
    let m = HvmModlistEntry { paddr: 0xdead_beef, size: 4096, cmdline_paddr: 0x10, reserved: 0 };
    let mb = m.to_bytes();
    assert_eq!(mb.len(), 32);
    let m2 = HvmModlistEntry::from_bytes(&mb).unwrap();
    assert_eq!((m2.paddr, m2.size, m2.cmdline_paddr, m2.reserved), (0xdead_beef, 4096, 0x10, 0));

    let e = HvmMemmapTableEntry { addr: 0x10_0000, size: 0x7ff0_0000, type_: 1, reserved: 0 };
    let eb = e.to_bytes();
    assert_eq!(eb.len(), 24);
    assert_eq!(&eb[16..20], &[1, 0, 0, 0]);
    let e2 = HvmMemmapTableEntry::from_bytes(&eb).unwrap();
    assert_eq!((e2.addr, e2.size, e2.type_), (0x10_0000, 0x7ff0_0000, 1));
    assert!(matches!(E820Type::from(e2.type_), E820Type::Ram));
}

#[test]
fn default_structures_are_zero() {
    assert!(HvmStartInfo::default().to_bytes().iter().all(|b| *b == 0));
    assert!(HvmModlistEntry::default().to_bytes().iter().all(|b| *b == 0));
    assert!(HvmMemmapTableEntry::default().to_bytes().iter().all(|b| *b == 0));
    assert_ne!(HvmStartInfo::default().magic, HvmStartInfo::XEN_HVM_START_MAGIC_VALUE);
}

#[test]
fn e820_known_codes() {
    let cases = [
        (1u32, E820Type::Ram),
        (2, E820Type::Reserved),
        (3, E820Type::Acpi),
        (4, E820Type::Nvs),
        (5, E820Type::Unusable),
        (7, E820Type::Pmem),
        (12, E820Type::Pram),
        (0xefffffff, E820Type::SoftReserved),
        (128, E820Type::ReservedKern),
    ];
    for (code, t) in cases {
        assert_eq!(E820Type::from(code), t);
        assert_eq!(t.as_u32(), code);
    }
}

#[test]
fn e820_unknown_codes_read_reserved() {
    for code in [0u32, 6, 8, 11, 13, 127, 129, 0xffff_ffff] {
        assert_eq!(E820Type::from(code), E820Type::Reserved);
    }
}

use dragon_net::pvh_param::{HvmMemmapTableEntry, HvmModlistEntry, HvmStartInfo};

/// Index of the first nonzero byte: where a field set to all ones starts in
/// a layout whose other fields are zero.
fn first_nonzero(bytes: &[u8]) -> usize {
    bytes.iter().position(|b| *b != 0).unwrap()
}

fn start_info_offset(set: impl Fn(&mut HvmStartInfo)) -> usize {
    let mut s = HvmStartInfo::default();
    set(&mut s);
    first_nonzero(&s.to_bytes())
}

fn modlist_offset(set: impl Fn(&mut HvmModlistEntry)) -> usize {
    let mut e = HvmModlistEntry::default();
    set(&mut e);
    first_nonzero(&e.to_bytes())
}

fn memmap_offset(set: impl Fn(&mut HvmMemmapTableEntry)) -> usize {
    let mut e = HvmMemmapTableEntry::default();
    set(&mut e);
    first_nonzero(&e.to_bytes())
}

#[test]
fn bindgen_test_layout_hvm_start_info() {
    assert_eq!(::std::mem::size_of::<HvmStartInfo>(), 56usize, "Size of: hvm_start_info");
    assert_eq!(HvmStartInfo::default().to_bytes().len(), 56usize, "Size of: hvm_start_info");
    assert_eq!(::std::mem::align_of::<HvmStartInfo>(), 8usize, "Alignment of hvm_start_info");
    assert_eq!(start_info_offset(|s| s.magic = u32::MAX), 0usize, "Offset of field: hvm_start_info::magic");
    assert_eq!(start_info_offset(|s| s.version = u32::MAX), 4usize, "Offset of field: hvm_start_info::version");
    assert_eq!(start_info_offset(|s| s.flags = u32::MAX), 8usize, "Offset of field: hvm_start_info::flags");
    assert_eq!(start_info_offset(|s| s.nr_modules = u32::MAX), 12usize, "Offset of field: hvm_start_info::nr_modules");
    assert_eq!(start_info_offset(|s| s.modlist_paddr = u64::MAX), 16usize, "Offset of field: hvm_start_info::modlist_paddr");
    assert_eq!(start_info_offset(|s| s.cmdline_paddr = u64::MAX), 24usize, "Offset of field: hvm_start_info::cmdline_paddr");
    assert_eq!(start_info_offset(|s| s.rsdp_paddr = u64::MAX), 32usize, "Offset of field: hvm_start_info::rsdp_paddr");
    assert_eq!(start_info_offset(|s| s.memmap_paddr = u64::MAX), 40usize, "Offset of field: hvm_start_info::memmap_paddr");
    assert_eq!(start_info_offset(|s| s.memmap_entries = u32::MAX), 48usize, "Offset of field: hvm_start_info::memmap_entries");
    assert_eq!(start_info_offset(|s| s.reserved = u32::MAX), 52usize, "Offset of field: hvm_start_info::reserved");
}

#[test]
fn bindgen_test_layout_hvm_modlist_entry() {
    assert_eq!(::std::mem::size_of::<HvmModlistEntry>(), 32usize, "Size of: hvm_modlist_entry");
    assert_eq!(HvmModlistEntry::default().to_bytes().len(), 32usize, "Size of: hvm_modlist_entry");
    assert_eq!(::std::mem::align_of::<HvmModlistEntry>(), 8usize, "Alignment of hvm_modlist_entry");
    assert_eq!(modlist_offset(|e| e.paddr = u64::MAX), 0usize, "Offset of field: hvm_modlist_entry::paddr");
    assert_eq!(modlist_offset(|e| e.size = u64::MAX), 8usize, "Offset of field: hvm_modlist_entry::size");
    assert_eq!(modlist_offset(|e| e.cmdline_paddr = u64::MAX), 16usize, "Offset of field: hvm_modlist_entry::cmdline_paddr");
    assert_eq!(modlist_offset(|e| e.reserved = u64::MAX), 24usize, "Offset of field: hvm_modlist_entry::reserved");
}

#[test]
fn bindgen_test_layout_hvm_memmap_table_entry() {
    assert_eq!(::std::mem::size_of::<HvmMemmapTableEntry>(), 24usize, "Size of: hvm_memmap_table_entry");
    assert_eq!(HvmMemmapTableEntry::default().to_bytes().len(), 24usize, "Size of: hvm_memmap_table_entry");
    assert_eq!(::std::mem::align_of::<HvmMemmapTableEntry>(), 8usize, "Alignment of hvm_memmap_table_entry");
    assert_eq!(memmap_offset(|e| e.addr = u64::MAX), 0usize, "Offset of field: hvm_memmap_table_entry::addr");
    assert_eq!(memmap_offset(|e| e.size = u64::MAX), 8usize, "Offset of field: hvm_memmap_table_entry::size");
    assert_eq!(memmap_offset(|e| e.type_ = u32::MAX), 16usize, "Offset of field: hvm_memmap_table_entry::type_");
    assert_eq!(memmap_offset(|e| e.reserved = u32::MAX), 20usize, "Offset of field: hvm_memmap_table_entry::reserved");
}

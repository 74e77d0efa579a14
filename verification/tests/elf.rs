//! ELF parsing, validation, and the mapping plan.

use nix_ld::elf::{
    elf_page_align, elf_page_offset, elf_page_start, open_fallback_path, parse_elf_header,
    prot_flags, total_mapping_size, validate_header, ElfError, ElfProgramHeader, MapOp,
    ProgramHeaders,
};
use nix_ld::fixup::{fixup_relocs, Dynamic, DynEntry, FixupPlan, MemImage};
use nix_ld::sys::{Error, Fatal};

/// A minimal valid ELF header for this machine: `ET_DYN`, one program
/// header of the native size.
fn header_bytes() -> Vec<u8> {
    let mut b = vec![0u8; 64];
    b[0] = 0x7f;
    b[1] = b'E';
    b[2] = b'L';
    b[3] = b'F';
    b[16] = 3; // e_type = ET_DYN
    b[18] = 62; // e_machine = EM_X86_64
    b[24] = 0x10; // e_entry = 0x10
    b[54] = 56; // e_phentsize
    b[56] = 1; // e_phnum
    b
}

/// One program header record as raw bytes.
fn phdr_bytes(
    p_type: u32,
    p_flags: u32,
    p_offset: u64,
    p_vaddr: u64,
    p_filesz: u64,
    p_memsz: u64,
) -> Vec<u8> {
    let mut b = Vec::new();
    b.extend_from_slice(&p_type.to_le_bytes());
    b.extend_from_slice(&p_flags.to_le_bytes());
    b.extend_from_slice(&p_offset.to_le_bytes());
    b.extend_from_slice(&p_vaddr.to_le_bytes());
    b.extend_from_slice(&p_vaddr.to_le_bytes()); // p_paddr
    b.extend_from_slice(&p_filesz.to_le_bytes());
    b.extend_from_slice(&p_memsz.to_le_bytes());
    b.extend_from_slice(&0x1000u64.to_le_bytes()); // p_align
    b
}

#[test]
fn test_parse_header_fields() {
    let h = parse_elf_header(&header_bytes()).unwrap();
    assert_eq!(h.e_type, 3);
    assert_eq!(h.e_machine, 62);
    assert_eq!(h.e_entry, 0x10);
    assert_eq!(h.e_phentsize, 56);
    assert_eq!(h.e_phnum, 1);
    assert!(parse_elf_header(&vec![0u8; 63]).is_none());
}

#[test]
fn test_validate_header_accepts_dynamic() {
    let h = parse_elf_header(&header_bytes()).unwrap();
    assert_eq!(validate_header(&h), Ok(56));
}

#[test]
fn test_bad_magic_is_fatal() {
    let mut b = header_bytes();
    b[0] = 0xb1;
    let h = parse_elf_header(&b).unwrap();
    assert_eq!(validate_header(&h), Err(ElfError::BadMagic));
}

#[test]
fn test_wrong_machine_is_fatal() {
    let mut b = header_bytes();
    b[18] = 0xb7; // aarch64
    let h = parse_elf_header(&b).unwrap();
    assert_eq!(validate_header(&h), Err(ElfError::WrongMachine));
}

#[test]
fn test_non_dynamic_is_fatal() {
    let mut b = header_bytes();
    b[16] = 2; // ET_EXEC
    let h = parse_elf_header(&b).unwrap();
    assert_eq!(validate_header(&h), Err(ElfError::NotDyn));
}

#[test]
fn test_zero_phsize_is_fatal() {
    let mut b = header_bytes();
    b[56] = 0; // e_phnum = 0
    let h = parse_elf_header(&b).unwrap();
    assert_eq!(validate_header(&h), Err(ElfError::BadPhSize));
}

#[test]
fn test_huge_phsize_is_fatal() {
    let mut b = header_bytes();
    // e_phnum = 1171 so that 56 * 1171 = 65576 > 65536.
    b[56] = (1171u16 & 0xff) as u8;
    b[57] = (1171u16 >> 8) as u8;
    let h = parse_elf_header(&b).unwrap();
    assert_eq!(validate_header(&h), Err(ElfError::BadPhSize));
}

#[test]
fn test_open_retries_without_trailing_newline() {
    let path = b"/some/ld.so\n\0".to_vec();
    let retry = open_fallback_path(&path, Error::Posix(2)).unwrap();
    assert_eq!(retry, b"/some/ld.so\0".to_vec());
    // Only a not-found error with a trailing newline is retried.
    assert!(open_fallback_path(&b"/some/ld.so\0".to_vec(), Error::Posix(2)).is_none());
    assert!(open_fallback_path(&path, Error::Posix(13)).is_none());
    assert!(open_fallback_path(&path, Error::Unknown).is_none());
}

#[test]
fn test_prot_flags_translation() {
    assert_eq!(prot_flags(0), 0);
    assert_eq!(prot_flags(4), 1); // R -> PROT_READ
    assert_eq!(prot_flags(2), 2); // W -> PROT_WRITE
    assert_eq!(prot_flags(1), 4); // X -> PROT_EXEC
    assert_eq!(prot_flags(5), 5); // R|X
    assert_eq!(prot_flags(7), 7);
}

#[test]
fn test_total_mapping_size_spans_loadables() {
    let phs = vec![
        ElfProgramHeader {
            p_type: 1,
            p_flags: 5,
            p_offset: 0,
            p_vaddr: 0x1000,
            p_paddr: 0x1000,
            p_filesz: 0x800,
            p_memsz: 0x800,
            p_align: 0x1000,
        },
        ElfProgramHeader {
            p_type: 2, // not PT_LOAD: ignored
            p_flags: 6,
            p_offset: 0,
            p_vaddr: 0,
            p_paddr: 0,
            p_filesz: 0x10000,
            p_memsz: 0x10000,
            p_align: 8,
        },
        ElfProgramHeader {
            p_type: 1,
            p_flags: 6,
            p_offset: 0x1000,
            p_vaddr: 0x3000,
            p_paddr: 0x3000,
            p_filesz: 0x100,
            p_memsz: 0x900,
            p_align: 0x1000,
        },
    ];
    assert_eq!(total_mapping_size(&phs), 0x3900 - 0x1000);
}

#[test]
fn test_page_helpers() {
    assert_eq!(elf_page_start(0x12345), 0x12000);
    assert_eq!(elf_page_offset(0x12345), 0x345);
    assert_eq!(elf_page_align(0x12345), 0x13000);
    assert_eq!(elf_page_align(0x12000), 0x12000);
}

/// Builds a table from raw record bytes.
fn table(records: Vec<Vec<u8>>) -> ProgramHeaders {
    let n = records.len();
    let mut data = Vec::new();
    for r in records {
        data.extend_from_slice(&r);
    }
    ProgramHeaders::from_raw(data, 56, n)
}

#[test]
fn test_summarize_loadable() {
    let phs = table(vec![
        phdr_bytes(1, 5, 0, 0x1000, 0x800, 0x800),
        phdr_bytes(1, 6, 0x1000, 0x3000, 0x100, 0x900),
    ]);
    let s = phs.summarize_loadable().unwrap();
    assert_eq!(s.first_vaddr, 0x1000);
    assert_eq!(s.total_mapping_size, 0x3900 - 0x1000);
    let none = table(vec![phdr_bytes(2, 0, 0, 0, 8, 8)]);
    assert!(none.summarize_loadable().is_none());
}

#[test]
fn test_reserve_size_rounds_to_pages() {
    let phs = table(vec![phdr_bytes(1, 5, 0, 0, 0x800, 0x1801)]);
    assert_eq!(phs.reserve_size(0x1000), Ok(0x2000));
    let none = table(vec![phdr_bytes(2, 0, 0, 0, 8, 8)]);
    assert_eq!(none.reserve_size(0x1000), Err(ElfError::NoLoadable));
}

#[test]
fn test_map_segments_plan() {
    // One read-exec segment fully file-backed, one writable segment with
    // memory past the file bytes.
    let phs = table(vec![
        phdr_bytes(1, 5, 0, 0, 0x1000, 0x1000),
        phdr_bytes(1, 6, 0x1000, 0x2000, 0x100, 0x2000),
    ]);
    let load_addr = 0x7f0000000000u64;
    let m = phs.map_segments(0x1000, load_addr, 0x10).unwrap();
    assert_eq!(m.load_bias, load_addr);
    assert_eq!(m.entry_point, load_addr + 0x10);
    assert_eq!(
        m.ops,
        vec![
            MapOp::MapFile { addr: load_addr, size: 0x1000, prot: 4 + 1, offset: 0 },
            MapOp::MapFile { addr: load_addr + 0x2000, size: 0x1000, prot: 2 + 1, offset: 0x1000 },
            // Zero the rest of the fractional page past filesz.
            MapOp::ZeroFill { addr: load_addr + 0x2100, len: 0xf00 },
            // And map the remaining whole page anonymously.
            MapOp::MapAnon { addr: load_addr + 0x1000, size: 0x1000, prot: 2 + 1 },
        ]
    );
}

#[test]
fn test_find_dynamic_table() {
    let phs = table(vec![
        phdr_bytes(1, 5, 0, 0, 0x1000, 0x1000),
        phdr_bytes(2, 6, 0x800, 0x800, 0x100, 0x100),
    ]);
    let d = Dynamic::from_program_headers(&phs, 0x5000).unwrap();
    assert_eq!(d.ptr, 0x5800);
    assert_eq!(d.load_offset, 0x5000);
    let no_dyn = table(vec![phdr_bytes(1, 5, 0, 0, 0x1000, 0x1000)]);
    assert!(Dynamic::from_program_headers(&no_dyn, 0x5000).is_none());
}

#[test]
fn test_fixup_applies_relative_relocations() {
    // An image of 8 words at base 0x1000; load offset is the base.  The
    // dynamic table names one Rela record at image offset 0x20 that
    // stores load_offset + 7 at image offset 0x18.
    let base = 0x1000usize;
    let mut image = MemImage {
        base,
        words: vec![0, 0, 0, 0, 0x18, 8, 7, 0],
    };
    // words[4..7] form the Rela record: r_offset=0x18, r_info=8
    // (R_X86_64_RELATIVE), r_addend=7.
    let table = vec![
        DynEntry { d_tag: 7, d_val: 0x20 }, // DT_RELA (load-offset-relative)
        DynEntry { d_tag: 8, d_val: 24 },   // DT_RELASZ: one record
        DynEntry { d_tag: 9, d_val: 24 },   // DT_RELAENT
        DynEntry { d_tag: 0, d_val: 0 },    // DT_NULL
    ];
    let dynamic = Dynamic { ptr: base + 0x20, load_offset: base };
    dynamic.fixup(&table, &mut image).unwrap();
    assert_eq!(image.words[3], base + 7);
}

#[test]
fn test_fixup_rejects_bad_relocation_type() {
    let base = 0x1000usize;
    let mut image = MemImage {
        base,
        words: vec![0, 0, 0, 0, 0x18, 1 /* not R_X86_64_RELATIVE */, 7, 0],
    };
    let table = vec![
        DynEntry { d_tag: 7, d_val: 0x20 },
        DynEntry { d_tag: 8, d_val: 24 },
        DynEntry { d_tag: 0, d_val: 0 },
    ];
    let dynamic = Dynamic { ptr: base + 0x20, load_offset: base };
    assert_eq!(dynamic.fixup(&table, &mut image), Err(Fatal::BadRelocType));
}

#[test]
fn test_fixup_rejects_bad_relaent_size() {
    let base = 0x1000usize;
    let mut image = MemImage { base, words: vec![0; 8] };
    let table = vec![
        DynEntry { d_tag: 9, d_val: 16 }, // DT_RELAENT with the wrong size
        DynEntry { d_tag: 0, d_val: 0 },
    ];
    let dynamic = Dynamic { ptr: base, load_offset: base };
    assert_eq!(dynamic.fixup(&table, &mut image), Err(Fatal::RelaEntSize));
}

#[test]
fn test_fixup_rejects_bad_relent_size() {
    let base = 0x1000usize;
    let mut image = MemImage { base, words: vec![0; 8] };
    let table = vec![
        DynEntry { d_tag: 19, d_val: 24 }, // DT_RELENT with the wrong size
        DynEntry { d_tag: 0, d_val: 0 },
    ];
    let dynamic = Dynamic { ptr: base, load_offset: base };
    assert_eq!(dynamic.fixup(&table, &mut image), Err(Fatal::RelEntSize));
}

#[test]
fn test_fixup_rejects_record_outside_image() {
    let base = 0x1000usize;
    let mut image = MemImage { base, words: vec![0; 4] };
    let table = vec![
        DynEntry { d_tag: 7, d_val: 0x4000 }, // DT_RELA far past the image
        DynEntry { d_tag: 8, d_val: 24 },
        DynEntry { d_tag: 0, d_val: 0 },
    ];
    let dynamic = Dynamic { ptr: base, load_offset: base };
    assert_eq!(dynamic.fixup(&table, &mut image), Err(Fatal::RelocOutOfBounds));
}

#[test]
fn test_fixup_relocs_direct_invocation() {
    // Executed directly: the program headers come from AT_PHDR.
    let plan = fixup_relocs(Some(0), Some(0x400040), Some(56), Some(4), None).unwrap();
    assert_eq!(
        plan,
        FixupPlan { load_offset: 0x400000, ph_addr: 0x400040, entry_size: 56, num_entries: 4 }
    );
    // Without the AT_PHDR triple the fixup cannot proceed.
    assert_eq!(
        fixup_relocs(None, Some(0x400040), None, Some(4), None),
        Err(Fatal::NoAtPhdr)
    );
}

#[test]
fn test_fixup_relocs_as_interpreter() {
    let h = parse_elf_header(&header_bytes()).unwrap();
    let plan = fixup_relocs(Some(0x500000), None, None, None, Some(&h)).unwrap();
    assert_eq!(plan.load_offset, 0x500000);
    assert_eq!(plan.ph_addr, 0x500040);
    assert_eq!(plan.entry_size, 56);
    assert_eq!(plan.num_entries, 1);
    // A header without the magic is fatal.
    let mut bad = header_bytes();
    bad[0] = 0;
    let bh = parse_elf_header(&bad).unwrap();
    assert_eq!(
        fixup_relocs(Some(0x500000), None, None, None, Some(&bh)),
        Err(Fatal::NotElf)
    );
}

use sgx_keep::segment::{program_header_2_segment, PageKind, Perms, ProgramHeader, PF_R, PF_W, PF_X, PT_LOAD};

fn file() -> Vec<u8> {
    (0u8..40).map(|b| b + 1).collect()
}

#[test]
fn file_bytes_land_at_their_offset_in_a_zeroed_frame() {
    let ph = ProgramHeader {
        p_type: PT_LOAD,
        p_flags: PF_R | PF_X,
        p_offset: 2,
        p_filesz: 0x10,
        p_vaddr: 0x1010,
        p_memsz: 0x2000,
    };
    let f = file();
    let s = program_header_2_segment(&f, &ph);
    assert_eq!(s.dst, 0x1000);
    assert_eq!(s.src.len(), 0x3000);
    assert_eq!(s.kind, PageKind::Regular(Perms { read: true, write: false, execute: true }));
    assert_eq!(&s.src[0x10..0x20], &f[2..18]);
    assert!(s.src[..0x10].iter().all(|b| *b == 0));
    assert!(s.src[0x20..].iter().all(|b| *b == 0));
}

#[test]
fn copy_is_clipped_to_the_memory_range() {
    let ph = ProgramHeader { p_type: PT_LOAD, p_flags: PF_W, p_offset: 0, p_filesz: 30, p_vaddr: 4096, p_memsz: 8 };
    let f = file();
    let s = program_header_2_segment(&f, &ph);
    assert_eq!(s.dst, 4096);
    assert_eq!(s.src.len(), 4096);
    assert_eq!(&s.src[..8], &f[..8]);
    assert!(s.src[8..].iter().all(|b| *b == 0));
    assert_eq!(s.kind, PageKind::Regular(Perms { read: false, write: true, execute: false }));
}

#[test]
fn bss_only_segment_is_all_zero() {
    let ph = ProgramHeader { p_type: PT_LOAD, p_flags: PF_R | PF_W, p_offset: 0, p_filesz: 0, p_vaddr: 0x2fff, p_memsz: 2 };
    let s = program_header_2_segment(&file(), &ph);
    assert_eq!(s.dst, 0x2000);
    assert_eq!(s.src.len(), 0x2000);
    assert!(s.src.iter().all(|b| *b == 0));
}

#[test]
fn empty_memory_range_on_a_page_boundary_gives_no_pages() {
    let ph = ProgramHeader { p_type: PT_LOAD, p_flags: 0, p_offset: 0, p_filesz: 0, p_vaddr: 0x3000, p_memsz: 0 };
    let s = program_header_2_segment(&file(), &ph);
    assert_eq!(s.dst, 0x3000);
    assert!(s.src.is_empty());
    assert_eq!(s.kind, PageKind::Regular(Perms { read: false, write: false, execute: false }));
}

#[test]
fn load_type_is_recognised() {
    let mut ph = ProgramHeader { p_type: PT_LOAD, p_flags: 0, p_offset: 0, p_filesz: 0, p_vaddr: 0, p_memsz: 0 };
    assert!(ph.is_load());
    ph.p_type = 2;
    assert!(!ph.is_load());
}

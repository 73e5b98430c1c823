use sgx_keep::backend::Backend;
use sgx_keep::builder::{build, BuildError, Image, Tcs};
use sgx_keep::layout::{Layout, HEAP_SIZE, STACK_SIZE};
use sgx_keep::segment::{PageKind, Perms, ProgramHeader, PF_R, PF_W, PF_X, PT_LOAD};

fn header(p_flags: u32, p_offset: usize, p_filesz: usize, p_vaddr: usize, p_memsz: usize) -> ProgramHeader {
    ProgramHeader { p_type: PT_LOAD, p_flags, p_offset, p_filesz, p_vaddr, p_memsz }
}

fn shim_image(entry: usize) -> Image {
    let phdr = ProgramHeader { p_type: 6, p_flags: PF_R, p_offset: 0, p_filesz: 0, p_vaddr: 0x9000, p_memsz: 0x9000 };
    Image { bytes: (0..100u8).collect(), headers: vec![phdr, header(PF_R | PF_X, 0, 100, 0, 0x1800)], entry }
}

fn code_image() -> Image {
    Image {
        bytes: (0..64u8).map(|b| b ^ 0x5a).collect(),
        headers: vec![header(PF_R | PF_W, 0, 64, 0x1000, 64), header(PF_R, 0, 8, 0, 8)],
        entry: 0,
    }
}

fn words(page: &[u8]) -> Vec<u64> {
    page.chunks(8).map(|c| u64::from_le_bytes(c.try_into().unwrap())).collect()
}

#[test]
fn image_span_is_the_highest_loadable_end() {
    assert_eq!(shim_image(0).address_span(), 0x1800);
    assert_eq!(code_image().address_span(), 0x1040);
    let none = Image { bytes: vec![], headers: vec![], entry: 0 };
    assert_eq!(none.address_span(), 0);
}

#[test]
fn plan_lists_internal_then_shim_then_code_segments() {
    let shim = shim_image(0x10);
    let code = code_image();
    let plan = build(&shim, &code).unwrap();
    let l = plan.layout;
    assert_eq!(Some(l), Layout::calculate(0x1800, 0x1040));
    assert_eq!(l.shim.end - l.shim.start, 0x2000);
    assert_eq!(l.code.end - l.code.start, 0x2000);

    let segs = &plan.segments;
    assert_eq!(segs.len(), 8);
    let rw = Perms { read: true, write: true, execute: false };

    assert_eq!(segs[0].kind, PageKind::Tcs);
    assert_eq!(segs[0].dst, l.prefix.start);
    let entry = (l.shim.start + 0x10 - l.enclave.start) as u64;
    assert_eq!(entry, 5263376);
    assert_eq!(plan.tcs, Tcs { entry, ssa_offset: 8192, ssa_count: 3 });
    let tcs_words = words(&segs[0].src);
    assert_eq!(&tcs_words[..5], &[0, 0, 8192, 3u64 << 32, entry]);
    assert!(tcs_words[5..].iter().all(|w| *w == 0));

    assert_eq!(segs[1].kind, PageKind::Regular(Perms { read: true, write: false, execute: false }));
    assert_eq!(segs[1].dst, l.prefix.start + 4096);
    assert_eq!(segs[1].src, l.to_page());

    assert_eq!(segs[2].kind, PageKind::Regular(rw));
    assert_eq!(segs[2].dst, l.prefix.start + 8192);
    assert_eq!(segs[2].src.len(), 3 * 4096);

    assert_eq!(segs[3].kind, PageKind::Regular(Perms { read: true, write: true, execute: true }));
    assert_eq!(segs[3].dst, l.heap.start);
    assert_eq!(segs[3].src.len(), HEAP_SIZE);

    assert_eq!(segs[4].kind, PageKind::Regular(rw));
    assert_eq!(segs[4].dst, l.stack.start);
    assert_eq!(segs[4].src.len(), STACK_SIZE);
    for s in &segs[2..5] {
        assert!(s.src.iter().all(|b| *b == 0));
    }

    assert_eq!(segs[5].kind, PageKind::Regular(Perms { read: true, write: false, execute: true }));
    assert_eq!(segs[5].dst, l.shim.start);
    assert_eq!(segs[5].src.len(), 0x2000);
    assert_eq!(&segs[5].src[..100], &shim.bytes[..]);

    assert_eq!(segs[6].kind, PageKind::Regular(rw));
    assert_eq!(segs[6].dst, l.code.start + 0x1000);
    assert_eq!(&segs[6].src[..64], &code.bytes[..]);

    assert_eq!(segs[7].kind, PageKind::Regular(Perms { read: true, write: false, execute: false }));
    assert_eq!(segs[7].dst, l.code.start);
    assert_eq!(&segs[7].src[..8], &code.bytes[..8]);

    for s in &segs[5..6] {
        assert!(l.shim.start <= s.dst && s.dst + s.src.len() <= l.shim.end);
    }
    for s in &segs[6..] {
        assert!(l.code.start <= s.dst && s.dst + s.src.len() <= l.code.end);
    }
}

#[test]
fn entry_beyond_the_shim_region_is_rejected() {
    assert_eq!(build(&shim_image(0x2000), &code_image()).unwrap_err(), BuildError::EntryOutsideShim);
    assert!(build(&shim_image(0x1fff), &code_image()).is_ok());
}

#[test]
fn workload_too_large_for_the_address_space_is_rejected() {
    let code = Image { bytes: vec![], headers: vec![header(PF_R, 0, 0, 0, 1usize << 62)], entry: 0 };
    assert_eq!(build(&shim_image(0), &code).unwrap_err(), BuildError::TooLarge);
}

#[test]
fn backend_builds_with_its_shim() {
    let backend = Backend::new(shim_image(0x10));
    assert_eq!(backend.name(), "sgx");
    let plan = backend.build(&code_image()).unwrap();
    assert_eq!(plan.segments.len(), 8);
    assert_eq!(plan.tcs.entry, 5263376);
}

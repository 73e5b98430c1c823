//! Translation of a loadable program header into a page-granular segment.

use vstd::prelude::*;
use crate::region::{Line, lemma_page_rounding, is_page_aligned};

verus! {

/// Segment type of a loadable program header.
pub const PT_LOAD: u32 = 1;

/// Execute permission bit of a program header's flags.
pub const PF_X: u32 = 1;

/// Write permission bit of a program header's flags.
pub const PF_W: u32 = 2;

/// Read permission bit of a program header's flags.
pub const PF_R: u32 = 4;

/// The fields of an ELF program header that loading reads.
#[derive(Clone, Copy, Debug, PartialEq, Eq, Structural)]
pub struct ProgramHeader {
    pub p_type: u32,
    pub p_flags: u32,
    pub p_offset: usize,
    pub p_filesz: usize,
    pub p_vaddr: usize,
    pub p_memsz: usize,
}

/// Read, write and execute permissions of a regular page.
#[derive(Clone, Copy, Debug, PartialEq, Eq, Structural)]
pub struct Perms {
    pub read: bool,
    pub write: bool,
    pub execute: bool,
}

/// The security classification of the pages of a segment.
#[derive(Clone, Copy, Debug, PartialEq, Eq, Structural)]
pub enum PageKind {
    /// A thread-control structure page.
    Tcs,
    /// An ordinary page with its permissions.
    Regular(Perms),
}

/// Page-granular bytes to be loaded at `dst`.
#[derive(Debug)]
pub struct Segment {
    pub kind: PageKind,
    pub dst: usize,
    pub src: Vec<u8>,
}

impl Segment {
    /// The segment starts on a page and spans whole pages.
    pub open spec fn wf(&self) -> bool {
        is_page_aligned(self.dst as int) && is_page_aligned(self.src@.len() as int)
    }
}

impl ProgramHeader {
    /// The header's file range lies in a file of `len` bytes, and its memory
    /// range rounded up to pages is addressable.
    pub open spec fn fits(self, len: int) -> bool {
        &&& self.p_offset + self.p_filesz <= len
        &&& self.p_vaddr + self.p_memsz + 4095 <= usize::MAX
    }

    /// The memory range the header asks for.
    pub open spec fn vm_line(self) -> Line {
        Line { start: self.p_vaddr, end: (self.p_vaddr + self.p_memsz) as usize }
    }

    /// The page-aligned frame around the memory range.
    pub open spec fn frame(self) -> Line {
        self.vm_line().spec_frame()
    }

    /// Where the memory range starts inside its frame.
    pub open spec fn offset_in_frame(self) -> int {
        self.p_vaddr - self.frame().start
    }

    /// How many bytes of the file are copied: the file range, clipped to the
    /// memory range.
    pub open spec fn copy_len(self) -> int {
        if self.p_filesz <= self.p_memsz { self.p_filesz as int } else { self.p_memsz as int }
    }

    /// The permissions that the header's flags grant.
    pub open spec fn perms(self) -> Perms {
        Perms {
            read: self.p_flags & PF_R != 0,
            write: self.p_flags & PF_W != 0,
            execute: self.p_flags & PF_X != 0,
        }
    }

    /// The contents of the frame: the file bytes at their place in the
    /// memory range, and zero everywhere else.
    pub open spec fn frame_bytes(self, file: Seq<u8>) -> Seq<u8> {
        Seq::new(
            self.frame().len() as nat,
            |j: int|
                if self.offset_in_frame() <= j < self.offset_in_frame() + self.copy_len() {
                    file[self.p_offset + j - self.offset_in_frame()]
                } else {
                    0u8
                },
        )
    }

    /// Is the header a loadable one.
    pub fn is_load(&self) -> (r: bool)
        ensures
            r == (self.p_type == PT_LOAD),
    {
        self.p_type == PT_LOAD
    }
}

/// Translates one loadable program header and the bytes of its file into a
/// segment: one zeroed page-aligned frame around the header's memory range,
/// with the file bytes copied to their offset in it and the header's
/// permissions. The destination is the frame's start, before relocation.
pub fn program_header_2_segment(file: &[u8], ph: &ProgramHeader) -> (r: Segment)
    requires
        ph.fits(file@.len() as int),
    ensures
        r.kind == PageKind::Regular(ph.perms()),
        r.dst == ph.frame().start,
        r.src@ == ph.frame_bytes(file@),
        r.src@.len() == ph.frame().len(),
        r.wf(),
        ph.frame().start <= ph.p_vaddr,
        ph.p_vaddr + ph.p_memsz <= ph.frame().end,
        ph.copy_len() <= ph.p_filesz,
        ph.copy_len() <= ph.frame().len(),
        ph.offset_in_frame() + ph.copy_len() <= ph.frame().len(),
        forall|j: int|
            0 <= j < r.src@.len() && !(ph.offset_in_frame() <= j < ph.offset_in_frame()
                + ph.copy_len()) ==> #[trigger] r.src@[j] == 0u8,
{
    let read = ph.p_flags & PF_R != 0;
    let write = ph.p_flags & PF_W != 0;
    let execute = ph.p_flags & PF_X != 0;
    let perms = Perms { read, write, execute };

    let unaligned = Line { start: ph.p_vaddr, end: ph.p_vaddr + ph.p_memsz };
    let aligned = unaligned.frame();
    let frame_len = aligned.count();
    let offset = ph.p_vaddr - aligned.start;
    let count = if ph.p_filesz <= ph.p_memsz { ph.p_filesz } else { ph.p_memsz };
    proof {
        lemma_page_rounding(aligned.end - aligned.start);
    }

    let mut buf: Vec<u8> = Vec::new();
    let mut i: usize = 0;
    while i < frame_len
        invariant
            i <= frame_len,
            buf@.len() == i,
            forall|j: int| 0 <= j < i ==> #[trigger] buf@[j] == 0u8,
        decreases frame_len - i,
    {
        buf.push(0u8);
        i = i + 1;
    }

    let file_len = file.len();
    let mut k: usize = 0;
    while k < count
        invariant
            file_len == file@.len(),
            ph.p_offset + count <= file_len,
            ph.fits(file@.len() as int),
            unaligned == ph.vm_line(),
            aligned == ph.frame(),
            frame_len == aligned.len(),
            offset == ph.offset_in_frame(),
            count == ph.copy_len(),
            offset + count <= frame_len,
            k <= count,
            buf@.len() == frame_len,
            forall|j: int|
                0 <= j < frame_len ==> #[trigger] buf@[j] == (if offset <= j < offset + k {
                    file@[ph.p_offset + j - offset]
                } else {
                    0u8
                }),
        decreases count - k,
    {
        buf.set(offset + k, file[ph.p_offset + k]);
        k = k + 1;
    }
    assert(buf@ =~= ph.frame_bytes(file@));

    Segment { kind: PageKind::Regular(perms), dst: aligned.start, src: buf }
}

} // verus!

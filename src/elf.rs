//! Reading an image from an ELF file.

use vstd::prelude::*;
use crate::builder::Image;
use crate::segment::{PT_LOAD, ProgramHeader};

verus! {

/// The program headers and entry point of the ELF file `bytes`, each header
/// as (type, flags, file offset, file size, virtual address, memory size);
/// `None` where the file is not one.
pub uninterp spec fn elf_parse(bytes: Seq<u8>) -> Option<(Seq<(u32, u32, u64, u64, u64, u64)>, u64)>;

/// Relies on goblin::elf::Elf::parse for the program headers and entry point
/// of an ELF file.
#[verifier::external_body]
fn parse_elf(bytes: &[u8]) -> (r: Option<(Vec<(u32, u32, u64, u64, u64, u64)>, u64)>)
    ensures
        r is None <==> elf_parse(bytes@) is None,
        r is Some ==> (r->0).0@ == (elf_parse(bytes@)->0).0 && (r->0).1 == (elf_parse(bytes@)->0).1,
{
    goblin::elf::Elf::parse(bytes).ok().map(
        |e|
            (
                e.program_headers.iter().map(
                    |ph| (ph.p_type, ph.p_flags, ph.p_offset, ph.p_filesz, ph.p_vaddr, ph.p_memsz),
                ).collect(),
                e.entry,
            ),
    )
}

/// Why an image cannot be read.
#[derive(Clone, Copy, Debug, PartialEq, Eq, Structural)]
pub enum ImageError {
    /// The bytes are not an ELF file.
    Malformed,
    /// A header field or the entry point does not fit in a `usize`.
    Unrepresentable,
    /// A loadable header's file range lies outside the file, or its memory
    /// range is not addressable.
    OutOfBounds,
}

/// Every field of every header, and the entry point, fit in a `usize`.
pub open spec fn representable(hs: Seq<(u32, u32, u64, u64, u64, u64)>, entry: u64) -> bool {
    &&& entry <= usize::MAX
    &&& forall|i: int|
        0 <= i < hs.len() ==> {
            &&& (#[trigger] hs[i]).2 <= usize::MAX
            &&& hs[i].3 <= usize::MAX
            &&& hs[i].4 <= usize::MAX
            &&& hs[i].5 <= usize::MAX
        }
}

/// A header's fields as a program header.
pub open spec fn header_of(t: (u32, u32, u64, u64, u64, u64)) -> ProgramHeader {
    ProgramHeader {
        p_type: t.0,
        p_flags: t.1,
        p_offset: t.2 as usize,
        p_filesz: t.3 as usize,
        p_vaddr: t.4 as usize,
        p_memsz: t.5 as usize,
    }
}

/// Every loadable header fits a file of `len` bytes.
pub open spec fn in_bounds(hs: Seq<(u32, u32, u64, u64, u64, u64)>, len: int) -> bool {
    forall|i: int| 0 <= i < hs.len() && (#[trigger] hs[i]).0 == PT_LOAD ==> header_of(hs[i]).fits(len)
}

/// What reading an image from `bytes` with the given headers and entry
/// point gives.
pub open spec fn image_from(
    bytes: Seq<u8>,
    hs: Seq<(u32, u32, u64, u64, u64, u64)>,
    entry: u64,
    r: Result<Image, ImageError>,
) -> bool {
    &&& !representable(hs, entry) <==> r == Err::<Image, ImageError>(ImageError::Unrepresentable)
    &&& (representable(hs, entry) && !in_bounds(hs, bytes.len() as int)) <==> r == Err::<Image, ImageError>(
        ImageError::OutOfBounds,
    )
    &&& r is Ok <==> (representable(hs, entry) && in_bounds(hs, bytes.len() as int))
    &&& r is Ok ==> {
        let img = r->Ok_0;
        &&& img.bytes@ == bytes
        &&& img.headers@ == hs.map_values(|t: (u32, u32, u64, u64, u64, u64)| header_of(t))
        &&& img.entry == entry
        &&& img.wf()
    }
}

impl Image {
    /// Builds an image from a file's bytes, its headers' fields and its
    /// entry point; fails where a value does not fit in a `usize` or a
    /// loadable header does not fit the file.
    pub fn from_parts(bytes: Vec<u8>, hs: Vec<(u32, u32, u64, u64, u64, u64)>, entry: u64) -> (r: Result<
        Image,
        ImageError,
    >)
        ensures
            image_from(bytes@, hs@, entry, r),
    {
        let max = usize::MAX as u64;
        if entry > max {
            return Err(ImageError::Unrepresentable);
        }
        let mut i: usize = 0;
        while i < hs.len()
            invariant
                i <= hs@.len(),
                max == usize::MAX,
                forall|j: int|
                    0 <= j < i ==> {
                        &&& (#[trigger] hs@[j]).2 <= usize::MAX
                        &&& hs@[j].3 <= usize::MAX
                        &&& hs@[j].4 <= usize::MAX
                        &&& hs@[j].5 <= usize::MAX
                    },
            decreases hs@.len() - i,
        {
            let t = hs[i];
            if t.2 > max || t.3 > max || t.4 > max || t.5 > max {
                return Err(ImageError::Unrepresentable);
            }
            i = i + 1;
        }
        let len = bytes.len();
        let mut headers: Vec<ProgramHeader> = Vec::new();
        let mut k: usize = 0;
        while k < hs.len()
            invariant
                representable(hs@, entry),
                len == bytes@.len(),
                k <= hs@.len(),
                headers@ == hs@.take(k as int).map_values(|t: (u32, u32, u64, u64, u64, u64)| header_of(t)),
                forall|j: int|
                    0 <= j < k && (#[trigger] hs@[j]).0 == PT_LOAD ==> header_of(hs@[j]).fits(len as int),
            decreases hs@.len() - k,
        {
            let t = hs[k];
            let h = ProgramHeader {
                p_type: t.0,
                p_flags: t.1,
                p_offset: t.2 as usize,
                p_filesz: t.3 as usize,
                p_vaddr: t.4 as usize,
                p_memsz: t.5 as usize,
            };
            if h.p_type == PT_LOAD {
                if h.p_offset > len || h.p_filesz > len - h.p_offset || h.p_vaddr > usize::MAX - 4095
                    || h.p_memsz > usize::MAX - 4095 - h.p_vaddr {
                    return Err(ImageError::OutOfBounds);
                }
            }
            headers.push(h);
            assert(hs@.take(k + 1).map_values(|t: (u32, u32, u64, u64, u64, u64)| header_of(t))
                =~= hs@.take(k as int).map_values(|t: (u32, u32, u64, u64, u64, u64)| header_of(t)).push(
                header_of(hs@[k as int]),
            ));
            k = k + 1;
        }
        assert(hs@.take(k as int) =~= hs@);
        let img = Image { bytes, headers, entry: entry as usize };
        assert forall|j: int|
            0 <= j < img.headers@.len() && (#[trigger] img.headers@[j]).p_type == PT_LOAD implies img.headers@[j].fits(
            img.bytes@.len() as int,
        ) by {
            assert(img.headers@[j] == header_of(hs@[j]));
        }
        Ok(img)
    }

    /// Reads an image from the bytes of an ELF file.
    pub fn from_elf(bytes: Vec<u8>) -> (r: Result<Image, ImageError>)
        ensures
            elf_parse(bytes@) is None <==> r == Err::<Image, ImageError>(ImageError::Malformed),
            elf_parse(bytes@) is Some ==> image_from(bytes@, (elf_parse(bytes@)->0).0, (elf_parse(bytes@)->0).1, r),
    {
        match parse_elf(bytes.as_slice()) {
            None => Err(ImageError::Malformed),
            Some((hs, entry)) => Image::from_parts(bytes, hs, entry),
        }
    }
}

} // verus!

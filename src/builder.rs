//! Planning an enclave build: the layout, the thread-control record, and
//! every segment to load, in loading order.

use vstd::prelude::*;
use vstd::arithmetic::div_mod::lemma_div_is_ordered;
use crate::encode::{encode_page, words_page};
use crate::layout::{Layout, layout_of, lemma_layout_regions, SSA_PAGES, LAYOUT_OFFSET, SSA_OFFSET};
use crate::region::{Line, ceil_page, lemma_page_rounding};
use crate::segment::{PT_LOAD, PageKind, Perms, ProgramHeader, Segment, program_header_2_segment};

verus! {

/// A binary image: its bytes, its program headers and its entry point, an
/// address relative to the image's own start.
#[derive(Debug)]
pub struct Image {
    pub bytes: Vec<u8>,
    pub headers: Vec<ProgramHeader>,
    pub entry: usize,
}

/// The loadable headers among `hs`, in their order.
pub open spec fn loads(hs: Seq<ProgramHeader>) -> Seq<ProgramHeader>
    decreases hs.len(),
{
    if hs.len() == 0 {
        Seq::empty()
    } else if hs.last().p_type == PT_LOAD {
        loads(hs.drop_last()).push(hs.last())
    } else {
        loads(hs.drop_last())
    }
}

/// The end of the highest memory range of the loadable headers among `hs`;
/// zero where there is none.
pub open spec fn span_of(hs: Seq<ProgramHeader>) -> int
    decreases hs.len(),
{
    if hs.len() == 0 {
        0
    } else {
        let h = hs.last();
        let rest = span_of(hs.drop_last());
        if h.p_type == PT_LOAD && h.p_vaddr + h.p_memsz > rest {
            h.p_vaddr + h.p_memsz
        } else {
            rest
        }
    }
}

/// Every loadable header ends at or below the span.
pub proof fn lemma_span_bounds(hs: Seq<ProgramHeader>)
    ensures
        span_of(hs) >= 0,
        forall|i: int|
            0 <= i < hs.len() && (#[trigger] hs[i]).p_type == PT_LOAD ==> hs[i].p_vaddr + hs[i].p_memsz
                <= span_of(hs),
        (forall|i: int| 0 <= i < hs.len() && (#[trigger] hs[i]).p_type == PT_LOAD ==> hs[i].p_vaddr + hs[i].p_memsz <= usize::MAX)
            ==> span_of(hs) <= usize::MAX,
    decreases hs.len(),
{
    if hs.len() > 0 {
        let init = hs.drop_last();
        lemma_span_bounds(init);
        assert forall|i: int| 0 <= i < hs.len() - 1 implies #[trigger] hs[i] == init[i] by {}
    }
}

/// Rounding up to pages keeps the order.
pub proof fn lemma_ceil_monotone(a: int, b: int)
    requires
        0 <= a <= b,
    ensures
        ceil_page(a) <= ceil_page(b),
{
    lemma_div_is_ordered(a + 4095, b + 4095, 4096);
}

impl Image {
    /// Every loadable header's file range lies in the bytes, and its memory
    /// range rounded up to pages is addressable.
    pub open spec fn wf(&self) -> bool {
        forall|i: int|
            0 <= i < self.headers@.len() && (#[trigger] self.headers@[i]).p_type == PT_LOAD
                ==> self.headers@[i].fits(self.bytes@.len() as int)
    }

    /// The address span that the image needs.
    pub open spec fn span(&self) -> int {
        span_of(self.headers@)
    }

    /// Computes the address span that the image needs: the end of its
    /// highest loadable memory range.
    pub fn address_span(&self) -> (r: usize)
        requires
            self.wf(),
        ensures
            r == self.span(),
    {
        let mut end: usize = 0;
        let mut i: usize = 0;
        while i < self.headers.len()
            invariant
                self.wf(),
                i <= self.headers@.len(),
                end == span_of(self.headers@.take(i as int)),
            decreases self.headers@.len() - i,
        {
            let h = self.headers[i];
            assert(self.headers@.take(i + 1).drop_last() =~= self.headers@.take(i as int));
            if h.p_type == PT_LOAD && h.p_vaddr + h.p_memsz > end {
                end = h.p_vaddr + h.p_memsz;
            }
            i = i + 1;
        }
        assert(self.headers@.take(i as int) =~= self.headers@);
        end
    }
}

/// `s` is the translation of `h` with the bytes of `file`, moved up by `base`.
pub open spec fn is_relocated(s: Segment, file: Seq<u8>, h: ProgramHeader, base: int) -> bool {
    &&& s.kind == PageKind::Regular(h.perms())
    &&& s.dst == h.frame().start + base
    &&& s.src@ == h.frame_bytes(file)
}

/// The segment's pages lie inside `region`.
pub open spec fn lies_in(s: Segment, region: Line) -> bool {
    region.start <= s.dst && s.dst + s.src@.len() <= region.end
}

/// Translates every loadable header of `image` and moves each segment into
/// `region`, appending them in header order.
fn push_relocated(image: &Image, region: Line, segs: &mut Vec<Segment>)
    requires
        image.wf(),
        region.wf(),
        region.is_aligned(),
        region.len() == ceil_page(image.span()),
    ensures
        final(segs)@.len() == old(segs)@.len() + loads(image.headers@).len(),
        forall|k: int| 0 <= k < old(segs)@.len() ==> #[trigger] final(segs)@[k] == old(segs)@[k],
        forall|k: int|
            0 <= k < loads(image.headers@).len() ==> {
                &&& is_relocated(
                    #[trigger] final(segs)@[old(segs)@.len() + k],
                    image.bytes@,
                    loads(image.headers@)[k],
                    region.start as int,
                )
                &&& lies_in(final(segs)@[old(segs)@.len() + k], region)
                &&& final(segs)@[old(segs)@.len() + k].wf()
            },
{
    let ghost hs = image.headers@;
    let ghost n0 = old(segs)@.len();
    proof {
        lemma_span_bounds(hs);
    }
    let mut i: usize = 0;
    while i < image.headers.len()
        invariant
            image.wf(),
            hs == image.headers@,
            region.wf(),
            region.is_aligned(),
            region.len() == ceil_page(image.span()),
            span_of(hs) >= 0,
            forall|j: int|
                0 <= j < hs.len() && (#[trigger] hs[j]).p_type == PT_LOAD ==> hs[j].p_vaddr + hs[j].p_memsz
                    <= span_of(hs),
            i <= hs.len(),
            n0 == old(segs)@.len(),
            segs@.len() == n0 + loads(hs.take(i as int)).len(),
            forall|k: int| 0 <= k < n0 ==> #[trigger] segs@[k] == old(segs)@[k],
            forall|k: int|
                0 <= k < loads(hs.take(i as int)).len() ==> {
                    &&& is_relocated(
                        #[trigger] segs@[n0 + k],
                        image.bytes@,
                        loads(hs.take(i as int))[k],
                        region.start as int,
                    )
                    &&& lies_in(segs@[n0 + k], region)
                    &&& segs@[n0 + k].wf()
                },
        decreases hs.len() - i,
    {
        let h = &image.headers[i];
        assert(hs.take(i + 1).drop_last() =~= hs.take(i as int));
        assert(hs.take(i + 1).last() == hs[i as int]);
        if h.is_load() {
            let s = program_header_2_segment(image.bytes.as_slice(), h);
            proof {
                lemma_page_rounding(h.p_vaddr + h.p_memsz);
                lemma_page_rounding(span_of(hs));
                lemma_ceil_monotone(h.p_vaddr + h.p_memsz, span_of(hs));
            }
            let seg = Segment { kind: s.kind, dst: s.dst + region.start, src: s.src };
            segs.push(seg);
        }
        i = i + 1;
    }
    assert(hs.take(i as int) =~= hs);
}

/// The thread-control record of the enclave's thread: where it enters,
/// relative to the enclave base, and where its state-save pages are.
#[derive(Clone, Copy, Debug, PartialEq, Eq, Structural)]
pub struct Tcs {
    pub entry: u64,
    pub ssa_offset: u64,
    pub ssa_count: u32,
}

impl Tcs {
    /// The architectural words of the thread-control page: state, flags,
    /// state-save offset, current and total state-save count, entry offset.
    pub open spec fn words(self) -> Seq<u64> {
        seq![0u64, 0u64, self.ssa_offset, (self.ssa_count as u64) << 32u64, self.entry]
    }

    /// The thread-control page.
    pub fn to_page(&self) -> (r: Vec<u8>)
        ensures
            r@ == words_page(self.words()),
            r@.len() == 4096,
    {
        let mut ws: Vec<u64> = Vec::new();
        ws.push(0u64);
        ws.push(0u64);
        ws.push(self.ssa_offset);
        ws.push((self.ssa_count as u64) << 32u64);
        ws.push(self.entry);
        assert(ws@ =~= self.words());
        encode_page(&ws)
    }
}

/// `n` zero bytes.
pub open spec fn zeros(n: int) -> Seq<u8> {
    Seq::new(n as nat, |i: int| 0u8)
}

/// A buffer of `n` zero bytes.
fn zeroed(n: usize) -> (r: Vec<u8>)
    ensures
        r@ == zeros(n as int),
{
    let mut buf: Vec<u8> = Vec::new();
    let mut i: usize = 0;
    while i < n
        invariant
            i <= n,
            buf@ == zeros(i as int),
        decreases n - i,
    {
        buf.push(0u8);
        i = i + 1;
        assert(buf@ =~= zeros(i as int));
    }
    buf
}

/// Why an enclave cannot be planned.
#[derive(Clone, Copy, Debug, PartialEq, Eq, Structural)]
pub enum BuildError {
    /// The regions together do not fit in the address space.
    TooLarge,
    /// The shim's entry point lies outside the shim's region.
    EntryOutsideShim,
}

/// Everything an enclave is built from.
#[derive(Debug)]
pub struct Plan {
    pub layout: Layout,
    pub tcs: Tcs,
    pub segments: Vec<Segment>,
}

/// The thread-control record for a layout and a shim entry point.
pub open spec fn tcs_of(l: Layout, entry: int) -> Tcs {
    Tcs {
        entry: (l.shim.start + entry - l.enclave.start) as u64,
        ssa_offset: SSA_OFFSET as u64,
        ssa_count: SSA_PAGES as u32,
    }
}

/// The five segments that the enclave's own structures take, in loading
/// order: thread control, layout, state-save pages, heap, stack.
pub open spec fn internal_ok(segs: Seq<Segment>, l: Layout, tcs: Tcs) -> bool {
    let rw = Perms { read: true, write: true, execute: false };
    &&& segs.len() >= 5
    &&& segs[0].kind == PageKind::Tcs && segs[0].dst == l.prefix.start
    &&& segs[0].src@ == words_page(tcs.words())
    &&& segs[1].kind == PageKind::Regular(Perms { read: true, write: false, execute: false })
    &&& segs[1].dst == l.prefix.start + LAYOUT_OFFSET
    &&& segs[1].src@ == words_page(l.words())
    &&& segs[2].kind == PageKind::Regular(rw) && segs[2].dst == l.prefix.start + SSA_OFFSET
    &&& segs[2].src@ == zeros(SSA_PAGES * 4096)
    &&& segs[3].kind == PageKind::Regular(Perms { read: true, write: true, execute: true })
    &&& segs[3].dst == l.heap.start && segs[3].src@ == zeros(l.heap.len())
    &&& segs[4].kind == PageKind::Regular(rw) && segs[4].dst == l.stack.start
    &&& segs[4].src@ == zeros(l.stack.len())
}

/// The segments of `image` follow from position `at` on, each translated
/// and moved into `region`.
pub open spec fn image_ok(segs: Seq<Segment>, at: int, image: &Image, region: Line) -> bool {
    let ls = loads(image.headers@);
    &&& at + ls.len() <= segs.len()
    &&& forall|k: int|
        0 <= k < ls.len() ==> {
            &&& is_relocated(#[trigger] segs[at + k], image.bytes@, ls[k], region.start as int)
            &&& lies_in(segs[at + k], region)
            &&& segs[at + k].wf()
        }
}

/// What planning an enclave for `shim` and `code` gives: the layout of
/// their spans, or `TooLarge` where it does not fit; `EntryOutsideShim`
/// where the shim's entry point lies beyond its region; otherwise the
/// thread-control record and the internal, shim and workload segments in
/// that order.
pub open spec fn builds(shim: &Image, code: &Image, r: Result<Plan, BuildError>) -> bool {
    &&& (r is Err && r->Err_0 == BuildError::TooLarge) <==> layout_of(
            shim.span() as usize,
            code.span() as usize,
        ) is None
    &&& (r is Err && r->Err_0 == BuildError::EntryOutsideShim) <==> (layout_of(
            shim.span() as usize,
            code.span() as usize,
        ) is Some && shim.entry >= ceil_page(shim.span()))
    &&& r is Ok ==> ({
            let p = r->Ok_0;
            let segs = p.segments@;
            let ns = loads(shim.headers@).len();
            let nc = loads(code.headers@).len();
            &&& Some(p.layout) == layout_of(shim.span() as usize, code.span() as usize)
            &&& p.tcs == tcs_of(p.layout, shim.entry as int)
            &&& segs.len() == 5 + ns + nc
            &&& internal_ok(segs, p.layout, p.tcs)
            &&& image_ok(segs, 5, shim, p.layout.shim)
            &&& image_ok(segs, 5 + ns as int, code, p.layout.code)
        })
}

/// Plans an enclave for a shim and a workload image: computes the layout
/// from the images' spans, then lists the internal segments, the shim's
/// segments moved into the shim region and the workload's moved into the
/// code region, in that order.
pub fn build(shim: &Image, code: &Image) -> (r: Result<Plan, BuildError>)
    requires
        shim.wf(),
        code.wf(),
    ensures
        builds(shim, code, r),
{
    proof {
        lemma_span_bounds(shim.headers@);
        lemma_span_bounds(code.headers@);
    }
    let shim_size = shim.address_span();
    let code_size = code.address_span();
    let layout = match Layout::calculate(shim_size, code_size) {
        Some(l) => l,
        None => return Err(BuildError::TooLarge),
    };
    proof {
        lemma_layout_regions(shim_size, code_size);
    }
    if shim.entry >= layout.shim.end - layout.shim.start {
        return Err(BuildError::EntryOutsideShim);
    }
    let tcs = Tcs {
        entry: (layout.shim.start + shim.entry - layout.enclave.start) as u64,
        ssa_offset: SSA_OFFSET as u64,
        ssa_count: SSA_PAGES as u32,
    };
    let rw = Perms { read: true, write: true, execute: false };
    let mut segs: Vec<Segment> = Vec::new();
    segs.push(Segment { kind: PageKind::Tcs, dst: layout.prefix.start, src: tcs.to_page() });
    segs.push(
        Segment {
            kind: PageKind::Regular(Perms { read: true, write: false, execute: false }),
            dst: layout.prefix.start + LAYOUT_OFFSET,
            src: layout.to_page(),
        },
    );
    segs.push(
        Segment { kind: PageKind::Regular(rw), dst: layout.prefix.start + SSA_OFFSET, src: zeroed(SSA_PAGES * 4096) },
    );
    segs.push(
        Segment {
            kind: PageKind::Regular(Perms { read: true, write: true, execute: true }),
            dst: layout.heap.start,
            src: zeroed(layout.heap.count()),
        },
    );
    segs.push(Segment { kind: PageKind::Regular(rw), dst: layout.stack.start, src: zeroed(layout.stack.count()) });
    let ghost internal = segs@;
    assert(internal_ok(internal, layout, tcs));
    push_relocated(shim, layout.shim, &mut segs);
    let ghost after_shim = segs@;
    assert(image_ok(after_shim, 5, shim, layout.shim));
    push_relocated(code, layout.code, &mut segs);
    assert(internal_ok(segs@, layout, tcs)) by {
        assert forall|k: int| 0 <= k < 5 implies #[trigger] segs@[k] == internal[k] by {
            assert(segs@[k] == after_shim[k]);
        }
    }
    assert(image_ok(segs@, 5, shim, layout.shim)) by {
        let ls = loads(shim.headers@);
        assert forall|k: int| 0 <= k < ls.len() implies #[trigger] segs@[5 + k] == after_shim[5 + k] by {}
    }
    Ok(Plan { layout, tcs, segments: segs })
}

} // verus!

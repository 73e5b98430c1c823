//! The enclave's address map.
//!
//! An enclave of `size` bytes (a power of two, at least one page) starts at
//! address `size`, so that its base is aligned to its size. Inside it, in this
//! order and without gaps:
//!
//! - the prefix: the thread-control page, the page that holds this layout,
//!   and the state-save pages;
//! - the heap;
//! - the stack;
//! - the shim image;
//! - the workload image.

use vstd::prelude::*;
use crate::encode::{encode_page, words_page};
use crate::region::{Line, PAGE_SIZE, ceil_page, is_page_aligned, lemma_page_rounding, round_up_to_page};

verus! {

/// Number of state-save pages of the enclave's thread.
pub const SSA_PAGES: usize = 3;

/// Bytes of the prefix: thread control, layout and state-save pages.
pub const PREFIX_SIZE: usize = 20480;

/// Bytes of the heap.
pub const HEAP_SIZE: usize = 4194304;

/// Bytes of the stack.
pub const STACK_SIZE: usize = 1048576;

/// Offset of the layout page from the start of the prefix.
pub const LAYOUT_OFFSET: usize = 4096;

/// Offset of the first state-save page from the start of the prefix.
pub const SSA_OFFSET: usize = 8192;

/// The regions of an enclave, as absolute addresses.
#[derive(Clone, Copy, Debug, PartialEq, Eq, Structural)]
pub struct Layout {
    pub enclave: Line,
    pub prefix: Line,
    pub heap: Line,
    pub stack: Line,
    pub shim: Line,
    pub code: Line,
}

/// The smallest `p * 2^k` that is at least `n`.
pub open spec fn grow(p: nat, n: nat) -> nat
    decreases (if p < n { n - p } else { 0 }) when p > 0
{
    if p >= n { p } else { grow(2 * p, n) }
}

/// The smallest power of two, of at least a page, that holds `n` bytes.
pub open spec fn enclave_size(n: nat) -> nat {
    grow(4096, n)
}

/// Bytes that the regions of an enclave with the given images take.
pub open spec fn total_size(shim_size: int, code_size: int) -> int {
    PREFIX_SIZE + HEAP_SIZE + STACK_SIZE + ceil_page(shim_size) + ceil_page(code_size)
}

/// A region of `len` bytes that starts at `start`.
pub open spec fn span(start: int, len: int) -> Line {
    Line { start: start as usize, end: (start + len) as usize }
}

/// The layout of an enclave whose shim and workload images span the given
/// numbers of bytes, or `None` where the enclave would not fit in the
/// address space.
pub open spec fn layout_of(shim_size: usize, code_size: usize) -> Option<Layout> {
    let size = enclave_size(total_size(shim_size as int, code_size as int) as nat) as int;
    if 2 * size > usize::MAX {
        None
    } else {
        let prefix = span(size, PREFIX_SIZE as int);
        let heap = span(prefix.end as int, HEAP_SIZE as int);
        let stack = span(heap.end as int, STACK_SIZE as int);
        let shim = span(stack.end as int, ceil_page(shim_size as int));
        let code = span(shim.end as int, ceil_page(code_size as int));
        Some(Layout { enclave: span(size, size), prefix, heap, stack, shim, code })
    }
}

/// `grow` gives at least `p` and at least `n`, and keeps page alignment.
pub proof fn lemma_grow(p: nat, n: nat)
    requires
        p > 0,
    ensures
        grow(p, n) >= p,
        grow(p, n) >= n,
        is_page_aligned(p as int) ==> is_page_aligned(grow(p, n) as int),
    decreases (if p < n { n - p } else { 0 }),
{
    if p < n {
        lemma_grow(2 * p, n);
    }
}

/// The layout depends on the two sizes alone: equal sizes give equal
/// region boundaries.
pub proof fn lemma_layout_deterministic(shim_a: usize, code_a: usize, shim_b: usize, code_b: usize)
    requires
        shim_a == shim_b,
        code_a == code_b,
    ensures
        layout_of(shim_a, code_a) == layout_of(shim_b, code_b),
{
}

/// In every layout that fits, the five regions lie in the enclave in the
/// order prefix, heap, stack, shim, code, pairwise disjoint, every boundary
/// is page aligned, and the shim and code regions are exactly their images'
/// sizes rounded up to pages.
pub proof fn lemma_layout_regions(shim_size: usize, code_size: usize)
    requires
        layout_of(shim_size, code_size) is Some,
    ensures
        ({
            let l = layout_of(shim_size, code_size)->0;
            let regions = seq![l.prefix, l.heap, l.stack, l.shim, l.code];
            &&& l.enclave.wf() && l.enclave.is_aligned()
            &&& forall|i: int| 0 <= i < 5 ==> {
                &&& (#[trigger] regions[i]).wf()
                &&& regions[i].is_aligned()
                &&& regions[i].within(l.enclave)
            }
            &&& forall|i: int, j: int| 0 <= i < j < 5 ==> (#[trigger] regions[i]).end <= (#[trigger] regions[j]).start
            &&& forall|i: int, j: int| 0 <= i < 5 && 0 <= j < 5 && i != j ==> (#[trigger] regions[i]).disjoint(#[trigger] regions[j])
            &&& l.prefix.start == l.enclave.start
            &&& l.shim.len() == ceil_page(shim_size as int)
            &&& l.code.len() == ceil_page(code_size as int)
        }),
{
    let total = total_size(shim_size as int, code_size as int);
    lemma_page_rounding(shim_size as int);
    lemma_page_rounding(code_size as int);
    lemma_grow(4096, total as nat);
    let l = layout_of(shim_size, code_size)->0;
    let regions = seq![l.prefix, l.heap, l.stack, l.shim, l.code];
    assert(regions[0] == l.prefix && regions[1] == l.heap && regions[2] == l.stack);
    assert(regions[3] == l.shim && regions[4] == l.code);
}

impl Layout {
    /// The six regions, in the order in which they are written to the
    /// layout page.
    pub open spec fn lines(self) -> Seq<Line> {
        seq![self.enclave, self.prefix, self.heap, self.stack, self.shim, self.code]
    }

    /// The region boundaries as the words of the layout page: start and end
    /// of each region, in the order of `lines`.
    pub open spec fn words(self) -> Seq<u64> {
        seq![
            self.enclave.start as u64, self.enclave.end as u64,
            self.prefix.start as u64, self.prefix.end as u64,
            self.heap.start as u64, self.heap.end as u64,
            self.stack.start as u64, self.stack.end as u64,
            self.shim.start as u64, self.shim.end as u64,
            self.code.start as u64, self.code.end as u64,
        ]
    }

    /// The page through which the running shim reads this layout.
    pub fn to_page(&self) -> (r: Vec<u8>)
        ensures
            r@ == words_page(self.words()),
            r@.len() == 4096,
    {
        let mut ws: Vec<u64> = Vec::new();
        ws.push(self.enclave.start as u64);
        ws.push(self.enclave.end as u64);
        ws.push(self.prefix.start as u64);
        ws.push(self.prefix.end as u64);
        ws.push(self.heap.start as u64);
        ws.push(self.heap.end as u64);
        ws.push(self.stack.start as u64);
        ws.push(self.stack.end as u64);
        ws.push(self.shim.start as u64);
        ws.push(self.shim.end as u64);
        ws.push(self.code.start as u64);
        ws.push(self.code.end as u64);
        assert(ws@ =~= self.words());
        encode_page(&ws)
    }

    /// Computes the layout for a shim and a workload image that span
    /// `shim_size` and `code_size` bytes; `None` where it does not fit in the
    /// address space.
    pub fn calculate(shim_size: usize, code_size: usize) -> (r: Option<Layout>)
        ensures
            r == layout_of(shim_size, code_size),
    {
        proof {
            lemma_page_rounding(shim_size as int);
            lemma_page_rounding(code_size as int);
        }
        let shim_len = match round_up_to_page(shim_size) {
            Some(n) => n,
            None => {
                proof {
                    lemma_grow(4096, total_size(shim_size as int, code_size as int) as nat);
                }
                return None;
            },
        };
        let code_len = match round_up_to_page(code_size) {
            Some(n) => n,
            None => {
                proof {
                    lemma_grow(4096, total_size(shim_size as int, code_size as int) as nat);
                }
                return None;
            },
        };
        let fixed: usize = PREFIX_SIZE + HEAP_SIZE + STACK_SIZE;
        if shim_len > usize::MAX - fixed || code_len > usize::MAX - fixed - shim_len {
            proof {
                lemma_grow(4096, total_size(shim_size as int, code_size as int) as nat);
            }
            return None;
        }
        let total = fixed + shim_len + code_len;
        assert(total as int == total_size(shim_size as int, code_size as int));
        let ghost goal = enclave_size(total as nat);
        let mut size: usize = PAGE_SIZE;
        while size < total
            invariant
                size > 0,
                total as int == total_size(shim_size as int, code_size as int),
                goal == enclave_size(total as nat),
                grow(size as nat, total as nat) == goal,
            decreases (if size < total { total - size } else { 0 }),
        {
            if size > usize::MAX / 2 {
                proof {
                    assert(grow(size as nat, total as nat) == grow(2 * size as nat, total as nat));
                    lemma_grow(2 * size as nat, total as nat);
                    assert(2 * goal > usize::MAX);
                }
                return None;
            }
            size = size * 2;
        }
        if size > usize::MAX / 2 {
            return None;
        }
        let prefix = Line { start: size, end: size + PREFIX_SIZE };
        let heap = Line { start: prefix.end, end: prefix.end + HEAP_SIZE };
        let stack = Line { start: heap.end, end: heap.end + STACK_SIZE };
        let shim = Line { start: stack.end, end: stack.end + shim_len };
        let code = Line { start: shim.end, end: shim.end + code_len };
        Some(Layout { enclave: Line { start: size, end: size + size }, prefix, heap, stack, shim, code })
    }
}

} // verus!

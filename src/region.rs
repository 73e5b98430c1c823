//! Address-range arithmetic on page granularity.

use vstd::prelude::*;
use vstd::arithmetic::div_mod::lemma_fundamental_div_mod;

verus! {

/// The size of one enclave page in bytes.
pub const PAGE_SIZE: usize = 4096;

/// `x` rounded down to a page boundary.
pub open spec fn floor_page(x: int) -> int {
    (x / 4096) * 4096
}

/// `x` rounded up to a page boundary.
pub open spec fn ceil_page(x: int) -> int {
    ((x + 4095) / 4096) * 4096
}

/// A value is page aligned.
pub open spec fn is_page_aligned(x: int) -> bool {
    x % 4096 == 0
}

/// What rounding to pages guarantees: the rounded values are aligned, the
/// floor is at most `x`, the ceiling at least `x`, and both lie within one
/// page of `x`.
pub proof fn lemma_page_rounding(x: int)
    requires
        0 <= x,
    ensures
        is_page_aligned(floor_page(x)),
        is_page_aligned(ceil_page(x)),
        floor_page(x) <= x < floor_page(x) + 4096,
        x <= ceil_page(x) < x + 4096,
        0 <= floor_page(x),
        is_page_aligned(x) ==> floor_page(x) == x && ceil_page(x) == x,
{
    lemma_fundamental_div_mod(x, 4096);
    lemma_fundamental_div_mod(x + 4095, 4096);
    assert(is_page_aligned(floor_page(x))) by (nonlinear_arith)
        requires
            floor_page(x) == (x / 4096) * 4096,
    {
        assert(((x / 4096) * 4096) % 4096 == 0) by (nonlinear_arith);
    }
    assert(((x + 4095) / 4096 * 4096) % 4096 == 0) by (nonlinear_arith);
}

/// A half-open byte range `[start, end)`.
#[derive(Clone, Copy, Debug, PartialEq, Eq, Structural)]
pub struct Line {
    pub start: usize,
    pub end: usize,
}

impl Line {
    /// The range is well formed: it does not end before it starts.
    pub open spec fn wf(self) -> bool {
        self.start <= self.end
    }

    /// Number of bytes in the range.
    pub open spec fn len(self) -> int {
        self.end - self.start
    }

    /// Both bounds are page aligned.
    pub open spec fn is_aligned(self) -> bool {
        is_page_aligned(self.start as int) && is_page_aligned(self.end as int)
    }

    /// The two ranges share no byte.
    pub open spec fn disjoint(self, other: Line) -> bool {
        self.end <= other.start || other.end <= self.start
    }

    /// `self` lies inside `outer`.
    pub open spec fn within(self, outer: Line) -> bool {
        outer.start <= self.start && self.end <= outer.end
    }

    /// The smallest page-aligned range that covers `self`.
    pub open spec fn spec_frame(self) -> Line {
        Line { start: floor_page(self.start as int) as usize, end: ceil_page(self.end as int) as usize }
    }

    /// Rounds the range outward to whole pages.
    pub fn frame(&self) -> (r: Line)
        requires
            self.wf(),
            self.end + 4095 <= usize::MAX,
        ensures
            r == self.spec_frame(),
            r.wf(),
            r.is_aligned(),
            r.start <= self.start,
            self.end <= r.end,
    {
        proof {
            lemma_page_rounding(self.start as int);
            lemma_page_rounding(self.end as int);
        }
        Line { start: self.start / PAGE_SIZE * PAGE_SIZE, end: (self.end + 4095) / PAGE_SIZE * PAGE_SIZE }
    }

    /// The number of bytes in the range.
    pub fn count(&self) -> (r: usize)
        requires
            self.wf(),
        ensures
            r == self.len(),
    {
        self.end - self.start
    }
}

/// Rounds a byte count up to whole pages; `None` where that overflows.
pub fn round_up_to_page(n: usize) -> (r: Option<usize>)
    ensures
        r == (if n + 4095 <= usize::MAX { Some(ceil_page(n as int) as usize) } else { None::<usize> }),
{
    if n > usize::MAX - 4095 {
        None
    } else {
        proof {
            lemma_page_rounding(n as int);
        }
        Some((n + 4095) / PAGE_SIZE * PAGE_SIZE)
    }
}

} // verus!

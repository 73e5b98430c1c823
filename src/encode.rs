//! Little-endian encoding of 64-bit words into one page.

use vstd::prelude::*;

verus! {

/// The eight bytes of `w`, least significant first.
pub open spec fn le_bytes(w: u64) -> Seq<u8> {
    Seq::new(8, |b: int| ((w >> (8 * b) as u64) & 0xff) as u8)
}

/// The words' encodings one after the other.
pub open spec fn words_bytes(ws: Seq<u64>) -> Seq<u8>
    decreases ws.len(),
{
    if ws.len() == 0 {
        Seq::empty()
    } else {
        words_bytes(ws.drop_last()) + le_bytes(ws.last())
    }
}

/// One page that starts with the words' encodings and is zero after them.
pub open spec fn words_page(ws: Seq<u64>) -> Seq<u8> {
    words_bytes(ws) + Seq::new((4096 - 8 * ws.len()) as nat, |i: int| 0u8)
}

/// Each word takes eight bytes.
pub proof fn lemma_words_bytes_len(ws: Seq<u64>)
    ensures
        words_bytes(ws).len() == 8 * ws.len(),
    decreases ws.len(),
{
    if ws.len() > 0 {
        lemma_words_bytes_len(ws.drop_last());
    }
}

/// Appends the encoding of `w` to `buf`.
fn push_word(buf: &mut Vec<u8>, w: u64)
    ensures
        final(buf)@ == old(buf)@ + le_bytes(w),
{
    let mut b: u64 = 0;
    while b < 8
        invariant
            b <= 8,
            buf@ == old(buf)@ + le_bytes(w).take(b as int),
        decreases 8 - b,
    {
        buf.push(((w >> (8 * b)) & 0xff) as u8);
        b = b + 1;
        assert(buf@ =~= old(buf)@ + le_bytes(w).take(b as int));
    }
    assert(le_bytes(w).take(8) =~= le_bytes(w));
}

/// Encodes the words into one page, zero after them.
pub fn encode_page(ws: &Vec<u64>) -> (r: Vec<u8>)
    requires
        ws@.len() <= 512,
    ensures
        r@ == words_page(ws@),
        r@.len() == 4096,
{
    let mut buf: Vec<u8> = Vec::new();
    let mut i: usize = 0;
    while i < ws.len()
        invariant
            i <= ws@.len(),
            buf@ == words_bytes(ws@.take(i as int)),
        decreases ws@.len() - i,
    {
        push_word(&mut buf, ws[i]);
        assert(ws@.take(i + 1).drop_last() =~= ws@.take(i as int));
        i = i + 1;
    }
    assert(ws@.take(ws@.len() as int) =~= ws@);
    proof {
        lemma_words_bytes_len(ws@);
    }
    let mut n: usize = buf.len();
    while n < 4096
        invariant
            8 * ws@.len() <= n <= 4096,
            buf@.len() == n,
            buf@ =~= words_bytes(ws@) + Seq::new((n - 8 * ws@.len()) as nat, |i: int| 0u8),
        decreases 4096 - n,
    {
        buf.push(0u8);
        n = n + 1;
    }
    buf
}

} // verus!

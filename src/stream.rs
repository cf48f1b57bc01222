//! The file level: blocks stand one after another, each behind its
//! little-endian `u32` length. The scanner cuts a byte string back into
//! blocks and stops at the first one that is not complete.
use vstd::prelude::*;
use crate::wire::{u32_bytes, u32_le, lemma_u32_bytes, read_u32, MAX_BLOCK_LEN};

verus! {

/// One block behind its length.
pub open spec fn frame(p: Seq<u8>) -> Seq<u8> {
    u32_bytes(p.len() as u32) + p
}

/// The blocks one after another, each behind its length.
pub open spec fn frames(ps: Seq<Seq<u8>>) -> Seq<u8>
    decreases ps.len(),
{
    if ps.len() == 0 {
        Seq::empty()
    } else {
        frames(ps.drop_last()) + frame(ps.last())
    }
}

/// Whether every block fits behind a `u32` length.
pub open spec fn all_fit(ps: Seq<Seq<u8>>) -> bool {
    forall|i: int| 0 <= i < ps.len() ==> #[trigger] ps[i].len() <= MAX_BLOCK_LEN
}

/// The complete blocks at the start of `b`, in order.
pub open spec fn scan(b: Seq<u8>) -> Seq<Seq<u8>>
    decreases b.len(),
{
    if b.len() < 4 {
        Seq::empty()
    } else {
        let n = u32_le(b, 0);
        if 4 + n > b.len() {
            Seq::empty()
        } else {
            seq![b.subrange(4, 4 + n)] + scan(b.subrange(4 + n, b.len() as int))
        }
    }
}

/// Scanning a complete block followed by anything yields that block first.
pub proof fn lemma_scan_frame(p: Seq<u8>, rest: Seq<u8>)
    requires
        p.len() <= MAX_BLOCK_LEN,
    ensures
        scan(frame(p) + rest) == seq![p] + scan(rest),
{
    let b = frame(p) + rest;
    lemma_u32_bytes(p.len() as u32);
    let h = u32_bytes(p.len() as u32);
    assert(b[0] == h[0] && b[1] == h[1] && b[2] == h[2] && b[3] == h[3]);
    assert(u32_le(b, 0) == p.len());
    assert(b.subrange(4, 4 + p.len() as int) =~= p);
    assert(b.subrange(4 + p.len() as int, b.len() as int) =~= rest);
}

/// Scanning whole blocks followed by anything yields those blocks first.
pub proof fn lemma_scan_frames_then(ps: Seq<Seq<u8>>, rest: Seq<u8>)
    requires
        all_fit(ps),
    ensures
        scan(frames(ps) + rest) == ps + scan(rest),
    decreases ps.len(),
{
    if ps.len() == 0 {
        assert(frames(ps) + rest =~= rest);
        assert(ps + scan(rest) =~= scan(rest));
    } else {
        let init = ps.drop_last();
        let last = ps.last();
        assert(all_fit(init)) by {
            assert forall|i: int| 0 <= i < init.len() implies #[trigger] init[i].len()
                <= MAX_BLOCK_LEN by {
                assert(init[i] == ps[i]);
            }
        }
        assert(last.len() <= MAX_BLOCK_LEN) by {
            assert(ps[ps.len() - 1].len() <= MAX_BLOCK_LEN);
        }
        lemma_scan_frames_then(init, frame(last) + rest);
        assert(frames(ps) + rest =~= frames(init) + (frame(last) + rest));
        lemma_scan_frame(last, rest);
        assert(init + (seq![last] + scan(rest)) =~= ps + scan(rest));
    }
}

/// Scanning whole blocks yields exactly those blocks.
pub proof fn lemma_scan_frames(ps: Seq<Seq<u8>>)
    requires
        all_fit(ps),
    ensures
        scan(frames(ps)) == ps,
{
    lemma_scan_frames_then(ps, Seq::empty());
    assert(frames(ps) + Seq::<u8>::empty() =~= frames(ps));
    assert(scan(Seq::<u8>::empty()) =~= Seq::<Seq<u8>>::empty());
    assert(ps + Seq::<Seq<u8>>::empty() =~= ps);
}

/// Appends the four little-endian bytes of `x`.
pub fn push_u32(v: &mut Vec<u8>, x: u32)
    ensures
        final(v)@ == old(v)@ + u32_bytes(x),
{
    v.push((x % 256) as u8);
    v.push(((x / 256) % 256) as u8);
    v.push(((x / 65536) % 256) as u8);
    v.push((x / 16777216) as u8);
    assert(final(v)@ =~= old(v)@ + u32_bytes(x));
}

/// Walks the blocks of a byte string, one complete block at a time.
pub struct BlockScanner<'a> {
    data: &'a [u8],
    offset: usize,
}

impl<'a> BlockScanner<'a> {
    /// The bytes that are left to scan.
    pub closed spec fn rest(&self) -> Seq<u8> {
        self.data@.subrange(self.offset as int, self.data@.len() as int)
    }

    pub closed spec fn wf(&self) -> bool {
        self.offset <= self.data@.len()
    }

    pub fn new(data: &'a [u8]) -> (r: Self)
        ensures
            r.wf(),
            r.rest() == data@,
    {
        let r = BlockScanner { data, offset: 0 };
        assert(r.rest() =~= data@);
        r
    }

    /// The next complete block, or `None` where fewer than four bytes are left
    /// or fewer than the length they declare.
    pub fn next(&mut self) -> (r: Option<&'a [u8]>)
        requires
            old(self).wf(),
        ensures
            final(self).wf(),
            scan(old(self).rest()).len() == 0 ==> r is None,
            r is None ==> final(self).rest() == old(self).rest(),
            r matches Some(p) ==> {
                &&& u32_le(old(self).rest(), 0) == p@.len()
                &&& p@ == old(self).rest().subrange(4, 4 + p@.len() as int)
                &&& final(self).rest() == old(self).rest().subrange(
                    4 + p@.len() as int,
                    old(self).rest().len() as int,
                )
            },
            scan(old(self).rest()).len() > 0 ==> (r matches Some(p) && p@ == scan(old(self).rest())[0]
                && scan(final(self).rest()) == scan(old(self).rest()).drop_first()),
    {
        let len = self.data.len();
        let ghost b = self.rest();
        if len - self.offset < 4 {
            return None;
        }
        let n = read_u32(self.data, self.offset) as usize;
        assert(u32_le(b, 0) == n);
        if n > len - self.offset - 4 {
            return None;
        }
        let start = self.offset + 4;
        let p = vstd::slice::slice_subrange(self.data, start, start + n);
        self.offset = start + n;
        assert(p@ =~= b.subrange(4, 4 + n));
        assert(self.rest() =~= b.subrange(4 + n, b.len() as int));
        assert(scan(b) == seq![b.subrange(4, 4 + n)] + scan(b.subrange(4 + n, b.len() as int)));
        assert(scan(b).drop_first() =~= scan(self.rest()));
        Some(p)
    }
}

/// Cuts a byte string into its complete blocks.
pub fn block_ranges(data: &[u8]) -> (r: Vec<&[u8]>)
    ensures
        r@.len() == scan(data@).len(),
        forall|i: int| 0 <= i < r@.len() ==> #[trigger] r@[i]@ == scan(data@)[i],
{
    let mut scanner = BlockScanner::new(data);
    let mut r: Vec<&[u8]> = Vec::new();
    loop
        invariant
            scanner.wf(),
            r@.len() + scan(scanner.rest()).len() == scan(data@).len(),
            forall|i: int| 0 <= i < r@.len() ==> #[trigger] r@[i]@ == scan(data@)[i],
            forall|i: int|
                0 <= i < scan(scanner.rest()).len() ==> #[trigger] scan(scanner.rest())[i] == scan(
                    data@,
                )[r@.len() + i],
        decreases scan(scanner.rest()).len(),
    {
        let ghost before = scan(scanner.rest());
        match scanner.next() {
            None => {
                return r;
            },
            Some(p) => {
                proof {
                    assert(p@ == before[0]);
                }
                r.push(p);
                proof {
                    assert forall|i: int| 0 <= i < scan(scanner.rest()).len() implies #[trigger] scan(
                        scanner.rest(),
                    )[i] == scan(data@)[r@.len() + i] by {
                        assert(scan(scanner.rest())[i] == before[i + 1]);
                    }
                }
            },
        }
    }
}


pub proof fn lemma_frames_concat(a: Seq<Seq<u8>>, b: Seq<Seq<u8>>)
    ensures
        frames(a + b) == frames(a) + frames(b),
    decreases b.len(),
{
    if b.len() == 0 {
        assert(a + b =~= a);
        assert(frames(a) + frames(b) =~= frames(a));
    } else {
        assert((a + b).drop_last() =~= a + b.drop_last());
        assert((a + b).last() == b.last());
        lemma_frames_concat(a, b.drop_last());
        assert(frames(a + b) =~= frames(a) + frames(b));
    }
}

/// The blocks before `k` take up the start of the stream, block `k` follows.
proof fn lemma_frames_at(ps: Seq<Seq<u8>>, k: int)
    requires
        0 <= k < ps.len(),
    ensures
        frames(ps) == frames(ps.take(k)) + frame(ps[k]) + frames(ps.skip(k + 1)),
        frames(ps.take(k + 1)) == frames(ps.take(k)) + frame(ps[k]),
{
    assert(ps =~= ps.take(k + 1) + ps.skip(k + 1));
    lemma_frames_concat(ps.take(k + 1), ps.skip(k + 1));
    assert(ps.take(k + 1).drop_last() =~= ps.take(k));
}

/// Each block's length prefix is exactly the length of the block after it.
pub proof fn lemma_length_prefix(ps: Seq<Seq<u8>>, k: int)
    requires
        all_fit(ps),
        0 <= k < ps.len(),
    ensures
        u32_le(frames(ps), frames(ps.take(k)).len() as int) == ps[k].len(),
        frames(ps).subrange(
            frames(ps.take(k)).len() + 4int,
            frames(ps.take(k)).len() + 4int + ps[k].len(),
        ) == ps[k],
{
    lemma_frames_at(ps, k);
    let pre = frames(ps.take(k));
    let f = frame(ps[k]);
    let all = frames(ps);
    assert(ps[k].len() <= MAX_BLOCK_LEN);
    lemma_u32_bytes(ps[k].len() as u32);
    let n = pre.len() as int;
    assert(all[n] == f[0] && all[n + 1] == f[1] && all[n + 2] == f[2] && all[n + 3] == f[3]);
    assert(all.subrange(n + 4, n + 4 + ps[k].len()) =~= ps[k]);
}

/// Cutting a stream of whole blocks inside block `k` still scans the `k`
/// blocks before it, and nothing more.
pub proof fn lemma_scan_truncated(ps: Seq<Seq<u8>>, k: int, cut: int)
    requires
        all_fit(ps),
        0 <= k < ps.len(),
        frames(ps.take(k)).len() <= cut < frames(ps.take(k + 1)).len(),
    ensures
        scan(frames(ps).take(cut)) == ps.take(k),
{
    lemma_frames_at(ps, k);
    let pre = frames(ps.take(k));
    let f = frame(ps[k]);
    let part = f.take(cut - pre.len());
    assert(frames(ps).take(cut) =~= pre + part);
    assert(all_fit(ps.take(k))) by {
        assert forall|i: int| 0 <= i < ps.take(k).len() implies #[trigger] ps.take(k)[i].len()
            <= MAX_BLOCK_LEN by {
            assert(ps.take(k)[i] == ps[i]);
        }
    }
    lemma_scan_frames_then(ps.take(k), part);
    assert(ps[k].len() <= MAX_BLOCK_LEN);
    lemma_u32_bytes(ps[k].len() as u32);
    if part.len() >= 4 {
        assert(part[0] == f[0] && part[1] == f[1] && part[2] == f[2] && part[3] == f[3]);
        assert(u32_le(part, 0) == ps[k].len());
    }
    assert(scan(part) =~= Seq::<Seq<u8>>::empty());
    assert(ps.take(k) + scan(part) =~= ps.take(k));
}

/// Cutting a stream of whole blocks right after block `k` scans exactly the
/// blocks up to it.
pub proof fn lemma_scan_prefix(ps: Seq<Seq<u8>>, k: int)
    requires
        all_fit(ps),
        0 <= k <= ps.len(),
    ensures
        scan(frames(ps).take(frames(ps.take(k)).len() as int)) == ps.take(k),
{
    assert(ps =~= ps.take(k) + ps.skip(k));
    lemma_frames_concat(ps.take(k), ps.skip(k));
    assert(frames(ps).take(frames(ps.take(k)).len() as int) =~= frames(ps.take(k)));
    assert(all_fit(ps.take(k))) by {
        assert forall|i: int| 0 <= i < ps.take(k).len() implies #[trigger] ps.take(k)[i].len()
            <= MAX_BLOCK_LEN by {
            assert(ps.take(k)[i] == ps[i]);
        }
    }
    lemma_scan_frames(ps.take(k));
}

} // verus!

//! Indirect-context tables: for each of fifteen context families, the last
//! four bytes that followed each context value (packed, newest lowest).

use vstd::prelude::*;
use crate::algorithm::model::hashing::{wmul, wsub, cls4, cls4_spec, lemma_cls4_range};
use crate::algorithm::model::history::{HistView, History, hist_ok, back};

verus! {

/// Number of indirect-context families.
pub const NFOLLOW: usize = 15;

/// Size of the family-`t` table.
pub open spec fn follow_size(t: int) -> nat {
    if t == 0 || t == 8 {
        256
    } else if t == 1 || t >= 10 {
        65536
    } else {
        0x80_0000
    }
}

/// The consecutive differences of the last four bytes, packed.
pub open spec fn deltas_spec(c4: u32) -> u32 {
    let d1 = wsub(c4 & 0xff, (c4 >> 8u32) & 0xff) & 0xff;
    let d2 = wsub((c4 >> 8u32) & 0xff, (c4 >> 16u32) & 0xff) & 0xff;
    let d3 = wsub((c4 >> 16u32) & 0xff, (c4 >> 24u32) & 0xff) & 0xff;
    d1 | (d2 << 8u32) | (d3 << 16u32)
}

/// The consecutive differences of the last four bytes, packed.
pub fn deltas(c4: u32) -> (r: u32)
    ensures
        r == deltas_spec(c4),
{
    let d1 = (c4 & 0xff).wrapping_sub((c4 >> 8) & 0xff) & 0xff;
    let d2 = ((c4 >> 8) & 0xff).wrapping_sub((c4 >> 16) & 0xff) & 0xff;
    let d3 = ((c4 >> 16) & 0xff).wrapping_sub((c4 >> 24) & 0xff) & 0xff;
    d1 | (d2 << 8) | (d3 << 16)
}

/// The order-5 mix of the last four bytes and the byte five back.
pub open spec fn fold5(h: HistView) -> u32 {
    wmul(h.c4, 0x9e37_79b1) ^ wmul(back(h, 5), 0x85eb_ca6b)
}

/// The order-6 mix of the last four bytes and the bytes five and six back.
pub open spec fn fold6(h: HistView) -> u32 {
    wmul(h.c4, 0x85eb_ca6b) ^ wmul(back(h, 5), 0xc2b2_ae35) ^ wmul(back(h, 6), 0x27d4_eb2f)
}

/// The order-5 mix (see `fold5`).
pub fn mix5(h: &History) -> (r: u32)
    requires
        hist_ok(h@),
    ensures
        r == fold5(h@),
{
    h.c4.wrapping_mul(0x9e37_79b1) ^ h.back(5).wrapping_mul(0x85eb_ca6b)
}

/// The order-6 mix (see `fold6`).
pub fn mix6(h: &History) -> (r: u32)
    requires
        hist_ok(h@),
    ensures
        r == fold6(h@),
{
    h.c4.wrapping_mul(0x85eb_ca6b) ^ h.back(5).wrapping_mul(0xc2b2_ae35) ^ h.back(6).wrapping_mul(0x27d4_eb2f)
}

/// Index of the current context value in the family-`t` table.
pub open spec fn follow_index(h: HistView, t: int) -> usize {
    let c4 = h.c4;
    if t == 0 {
        (c4 & 0xff) as usize
    } else if t == 1 {
        (c4 & 0xffff) as usize
    } else if t == 2 {
        (wmul(c4 & 0x00ff_ffff, 0x9e37_79b1) >> 9u32) as usize
    } else if t == 3 {
        (wmul(c4, 0x85eb_ca6b) >> 9u32) as usize
    } else if t == 4 {
        (fold5(h) >> 9u32) as usize
    } else if t == 5 {
        (fold6(h) >> 9u32) as usize
    } else if t == 6 {
        (wmul(c4 & 0xf0f0_f0f0, 0x9e37_79b1) >> 9u32) as usize
    } else if t == 7 {
        (wmul(deltas_spec(c4), 0x85eb_ca6b) >> 9u32) as usize
    } else if t == 8 {
        cls4_spec(c4) as usize
    } else if t == 9 {
        (wmul(c4 & 0x0f0f_0f0f, 0xc2b2_ae35) >> 9u32) as usize
    } else if t == 10 {
        (if h.pos >= 3 { (c4 & 0xff) | (back(h, 3) << 8u32) } else { c4 & 0xffff }) as usize
    } else if t == 11 {
        (if h.pos >= 4 { back(h, 2) | (back(h, 4) << 8u32) } else { c4 & 0xffff }) as usize
    } else if t == 12 {
        (if h.pos >= 6 { back(h, 3) | (back(h, 6) << 8u32) } else { c4 & 0xffff }) as usize
    } else if t == 13 {
        (if h.pos >= 5 { (c4 & 0xff) | (back(h, 5) << 8u32) } else { c4 & 0xffff }) as usize
    } else {
        (wmul(h.wordhash, 0x9e37_79b1) >> 16u32) as usize
    }
}

/// The family-`t` history entry for the current context value.
pub open spec fn follow_entry(f: Seq<Seq<u32>>, h: HistView, t: int) -> u32 {
    f[t][follow_index(h, t) as int]
}

/// Whether family `t` has enough history to record a byte.
pub open spec fn follow_active(h: HistView, t: int) -> bool {
    (t != 4 || h.pos >= 5) && (t != 5 || h.pos >= 6)
}

/// The tables after recording that `byte` followed the current contexts.
pub open spec fn follow_record(f: Seq<Seq<u32>>, h: HistView, byte: u8) -> Seq<Seq<u32>> {
    Seq::new(15, |t: int| if follow_active(h, t) {
        let j = follow_index(h, t) as int;
        f[t].update(j, (f[t][j] << 8u32) | (byte as u32))
    } else {
        f[t]
    })
}

/// The tables' shapes.
pub open spec fn follow_ok(f: Seq<Seq<u32>>) -> bool {
    f.len() == 15 && forall|t: int| 0 <= t < 15 ==> #[trigger] f[t].len() == follow_size(t)
}

/// Empty tables.
pub open spec fn follow_init() -> Seq<Seq<u32>> {
    Seq::new(15, |t: int| Seq::new(follow_size(t), |j: int| 0u32))
}

pub proof fn lemma_index_bounds()
    ensures
        forall|x: u32| #[trigger] (x >> 9u32) < 0x80_0000,
        forall|x: u32| #[trigger] (x >> 16u32) < 65536,
        forall|x: u32| #[trigger] (x & 0xff) < 256,
        forall|x: u32| #[trigger] (x & 0xffff) < 65536,
{
    assert((forall|x: u32| #[trigger] (x >> 9u32) < 0x80_0000)
        && (forall|x: u32| #[trigger] (x >> 16u32) < 65536)
        && (forall|x: u32| #[trigger] (x & 0xff) < 256)
        && (forall|x: u32| #[trigger] (x & 0xffff) < 65536)) by (bit_vector);
}

proof fn lemma_pair_bound(a: u32, b: u32)
    requires
        a < 256,
        b < 256,
    ensures
        (a | (b << 8u32)) < 65536,
{
    assert((a | (b << 8u32)) < 65536) by (bit_vector)
        requires a < 256, b < 256;
}

/// Every follow index addresses its table.
pub proof fn lemma_follow_index(h: HistView, t: int)
    requires
        hist_ok(h),
        0 <= t < 15,
    ensures
        follow_index(h, t) < follow_size(t),
{
    lemma_index_bounds();
    lemma_cls4_range(h.c4);
    let c4 = h.c4;
    assert((c4 & 0xff) < 256);
    if t == 10 && h.pos >= 3 {
        lemma_pair_bound(c4 & 0xff, back(h, 3));
    }
    if t == 11 && h.pos >= 4 {
        lemma_pair_bound(back(h, 2), back(h, 4));
    }
    if t == 12 && h.pos >= 6 {
        lemma_pair_bound(back(h, 3), back(h, 6));
    }
    if t == 13 && h.pos >= 5 {
        lemma_pair_bound(c4 & 0xff, back(h, 5));
    }
    assert(c4 & 0xffff < 65536);
}

/// Index of the current context value in the family-`t` table.
pub fn index(h: &History, t: usize) -> (j: usize)
    requires
        hist_ok(h@),
        t < 15,
    ensures
        j == follow_index(h@, t as int),
        j < follow_size(t as int),
{
    proof {
        lemma_follow_index(h@, t as int);
    }
    let c4 = h.c4;
    if t == 0 {
        (c4 & 0xff) as usize
    } else if t == 1 {
        (c4 & 0xffff) as usize
    } else if t == 2 {
        ((c4 & 0x00ff_ffff).wrapping_mul(0x9e37_79b1) >> 9) as usize
    } else if t == 3 {
        (c4.wrapping_mul(0x85eb_ca6b) >> 9) as usize
    } else if t == 4 {
        let m = c4.wrapping_mul(0x9e37_79b1) ^ h.back(5).wrapping_mul(0x85eb_ca6b);
        (m >> 9) as usize
    } else if t == 5 {
        let m = c4.wrapping_mul(0x85eb_ca6b) ^ h.back(5).wrapping_mul(0xc2b2_ae35) ^ h.back(6).wrapping_mul(0x27d4_eb2f);
        (m >> 9) as usize
    } else if t == 6 {
        ((c4 & 0xf0f0_f0f0).wrapping_mul(0x9e37_79b1) >> 9) as usize
    } else if t == 7 {
        (deltas(c4).wrapping_mul(0x85eb_ca6b) >> 9) as usize
    } else if t == 8 {
        cls4(c4) as usize
    } else if t == 9 {
        ((c4 & 0x0f0f_0f0f).wrapping_mul(0xc2b2_ae35) >> 9) as usize
    } else if t == 10 {
        (if h.pos >= 3 { (c4 & 0xff) | (h.back(3) << 8) } else { c4 & 0xffff }) as usize
    } else if t == 11 {
        (if h.pos >= 4 { h.back(2) | (h.back(4) << 8) } else { c4 & 0xffff }) as usize
    } else if t == 12 {
        (if h.pos >= 6 { h.back(3) | (h.back(6) << 8) } else { c4 & 0xffff }) as usize
    } else if t == 13 {
        (if h.pos >= 5 { (c4 & 0xff) | (h.back(5) << 8) } else { c4 & 0xffff }) as usize
    } else {
        (h.wordhash.wrapping_mul(0x9e37_79b1) >> 16) as usize
    }
}

/// The indirect-context tables.
pub struct Follow {
    pub t: Vec<Vec<u32>>,
}

impl Follow {
    pub open spec fn view(&self) -> Seq<Seq<u32>> {
        Seq::new(self.t@.len(), |i: int| self.t@[i]@)
    }

    /// Empty tables.
    pub fn new() -> (f: Self)
        ensures
            f@ == follow_init(),
            follow_ok(f@),
    {
        let mut t: Vec<Vec<u32>> = Vec::new();
        let mut k: usize = 0;
        while k < NFOLLOW
            invariant
                k <= 15,
                t@.len() == k,
                forall|i: int| 0 <= i < k ==> #[trigger] t@[i]@ == Seq::new(follow_size(i), |j: int| 0u32),
            decreases 15 - k,
        {
            let size: usize = if k == 0 || k == 8 {
                256
            } else if k == 1 || k >= 10 {
                65536
            } else {
                0x80_0000
            };
            let v = vec![0u32; size];
            assert(v@ =~= Seq::new(follow_size(k as int), |j: int| 0u32));
            t.push(v);
            k += 1;
        }
        let f = Follow { t };
        assert(f@ =~= follow_init());
        f
    }

    /// The family-`t` history entry for the current context value.
    pub fn entry(&self, h: &History, t: usize) -> (v: u32)
        requires
            follow_ok(self@),
            hist_ok(h@),
            t < 15,
        ensures
            v == follow_entry(self@, h@, t as int),
    {
        let j = index(h, t);
        assert(self@[t as int] == self.t@[t as int]@);
        self.t[t][j]
    }

    /// Record that `byte` followed each family's current context value.
    pub fn record(&mut self, h: &History, byte: u8)
        requires
            follow_ok(old(self)@),
            hist_ok(h@),
        ensures
            final(self)@ == follow_record(old(self)@, h@, byte),
            follow_ok(final(self)@),
    {
        let ghost f0 = self@;
        let mut k: usize = 0;
        while k < NFOLLOW
            invariant
                k <= 15,
                hist_ok(h@),
                f0 == old(self)@,
                follow_ok(f0),
                self.t@.len() == 15,
                forall|i: int| 0 <= i < 15 ==> #[trigger] self.t@[i]@ == if i < k { follow_record(f0, h@, byte)[i] } else { f0[i] },
            decreases 15 - k,
        {
            assert(f0[k as int] == self.t@[k as int]@);
            if (k != 4 || h.pos >= 5) && (k != 5 || h.pos >= 6) {
                let j = index(h, k);
                let old_v = self.t[k][j];
                self.t[k][j] = (old_v << 8) | byte as u32;
            }
            k += 1;
        }
        assert(self@ =~= follow_record(f0, h@, byte));
        assert forall|t: int| 0 <= t < 15 implies #[trigger] self@[t].len() == follow_size(t) by {
            assert(f0[t].len() == follow_size(t));
            assert(self@[t] == follow_record(f0, h@, byte)[t]);
            if follow_active(h@, t) {
                lemma_follow_index(h@, t);
            }
        }
    }
}

} // verus!

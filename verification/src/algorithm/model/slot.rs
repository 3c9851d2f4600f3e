//! One context model's tables: an adaptive probability counter and a
//! bit-history state per slot, plus a StateMap from bit-history state (and bit
//! position) to probability. High-cardinality contexts use 8-way
//! set-associative buckets tagged by a checksum byte.

use vstd::prelude::*;
use crate::algorithm::tables::{stretch12_table, lemma_stretch_tables_range};
use crate::algorithm::model::hashing::{wadd, wmul, next_state, next_state_spec};

verus! {

/// Ways per associative bucket.
pub const WAYS: usize = 8;

/// The abstract state of one context model.
pub struct SlotView {
    pub cp: Seq<i16>,
    pub cn: Seq<u8>,
    pub st: Seq<u8>,
    pub ck: Seq<u8>,
    pub sm: Seq<u32>,
    pub tmask: u32,
    pub assoc: bool,
    pub bmask: u32,
    pub cshift: u32,
    pub idx: usize,
    pub sm_idx: usize,
}

/// Adaptation rate of a counter that has seen `n` observations:
/// 4096 / (n + 2), but never below 40.
pub open spec fn rate_of(n: int) -> i32 {
    if 4096int / (n + 2) < 40 {
        40
    } else {
        (4096int / (n + 2)) as i32
    }
}

/// The rate table indexed by observation count.
pub open spec fn rate_table() -> Seq<i32> {
    Seq::new(256, |n: int| rate_of(n))
}

/// Division rounding towards zero (what the machine's `/` does).
pub open spec fn tdiv(a: int, b: int) -> int {
    if a >= 0 {
        a / b
    } else {
        -((-a) / b)
    }
}

/// The slot hash for the context hash and the partial byte `c0`.
pub open spec fn slot_hash(ctxhash: u32, c0: i32) -> u32 {
    wadd(wmul(ctxhash, 769), c0 as u32)
}

/// First way at or after `k` of the bucket at `base` whose checksum is `chk`
/// (8 when none).
pub open spec fn find_way(ck: Seq<u8>, base: int, chk: u8, k: int) -> int
    decreases 8 - k,
{
    if k >= 8 {
        8
    } else if ck[base + k] == chk {
        k
    } else {
        find_way(ck, base, chk, k + 1)
    }
}

/// The least count among the first `k` ways of the bucket (first such way
/// wins ties), starting from way 0.
pub open spec fn min_way(cn: Seq<u8>, base: int, k: int) -> (u8, int)
    decreases k,
{
    if k <= 0 {
        (cn[base], base)
    } else {
        let (lo, w) = min_way(cn, base, k - 1);
        if cn[base + k - 1] < lo {
            (cn[base + k - 1], base + k - 1)
        } else {
            (lo, w)
        }
    }
}

/// The bucket of an associative slot hash.
pub open spec fn bucket(s: SlotView, h: u32) -> int {
    ((h & s.bmask) << 3u32) as int
}

/// The checksum byte of an associative slot hash.
pub open spec fn checksum(s: SlotView, h: u32) -> u8 {
    (h >> s.cshift) as u8
}

/// The slot chosen for hash `h`, with the tables after a possible eviction:
/// an associative model reuses the way whose checksum matches, else resets
/// the least-used way for the new context.
pub open spec fn slot_select(s: SlotView, h: u32) -> (SlotView, int) {
    if s.assoc {
        let base = bucket(s, h);
        let chk = checksum(s, h);
        let f = find_way(s.ck, base, chk, 0);
        if f < 8 {
            (s, base + f)
        } else {
            let w = min_way(s.cn, base, 8).1;
            (SlotView { ck: s.ck.update(w, chk), cp: s.cp.update(w, 0), cn: s.cn.update(w, 0), st: s.st.update(w, 0), ..s }, w)
        }
    } else {
        (s, (h & s.tmask) as int)
    }
}

/// The state after looking up the slot for context hash `ctxhash` at the
/// current partial byte `c0` and bit position `bitcount`.
pub open spec fn slot_lookup(s: SlotView, ctxhash: u32, c0: i32, bitcount: i32) -> SlotView {
    let (t, ix) = slot_select(s, slot_hash(ctxhash, c0));
    SlotView { idx: ix as usize, sm_idx: ((t.st[ix] as usize) | ((bitcount as usize) << 8usize)), ..t }
}

/// The counter's stretched probability at the looked-up slot.
pub open spec fn slot_counter_input(s: SlotView) -> i32 {
    stretch12_table()[s.cp[s.idx as int] + 2048]
}

/// The StateMap's stretched probability for the looked-up bit history.
pub open spec fn slot_state_input(s: SlotView) -> i32 {
    stretch12_table()[(s.sm[s.sm_idx as int] >> 20u32) as int]
}

/// A counter moved towards the target `t` at rate `r`.
pub open spec fn counter_adapt(pr: i32, t: i32, r: i32) -> int {
    pr + ((((t - pr) * r) as i32) >> 12i32)
}

/// A StateMap entry (22-bit probability, 10-bit count) after seeing `bit`.
pub open spec fn sm_adapt(entry: u32, bit: i32) -> u32 {
    let cnt = (entry & 1023) as i32;
    let p22 = (entry >> 10u32) as i32;
    let newp = p22 + tdiv((bit << 22i32) - p22, cnt + 2);
    let newcnt = if cnt < 511 { cnt + 1 } else { 511 };
    ((newp as u32) << 10u32) | (newcnt as u32)
}

/// The state after learning `bit` at the looked-up slot and bit history.
pub open spec fn slot_learn(s: SlotView, bit: i32) -> SlotView {
    let t: i32 = if bit != 0 { 4095 } else { 0 };
    let ix = s.idx as int;
    let n = s.cn[ix] as i32;
    let pr = s.cp[ix] as i32 + 2048;
    let smi = s.sm_idx as int;
    SlotView {
        cp: s.cp.update(ix, (counter_adapt(pr as i32, t, rate_of(n as int)) - 2048) as i16),
        cn: if n < 254 { s.cn.update(ix, (n + 1) as u8) } else { s.cn },
        sm: s.sm.update(smi, sm_adapt(s.sm[smi], bit)),
        st: s.st.update(ix, next_state_spec(s.sm_idx as u8, bit)),
        ..s
    }
}

/// A fresh model with a table of 2^tb slots (associative when `assoc`).
pub open spec fn slot_init(tb: u32, assoc: bool) -> SlotView {
    let size = pow2(tb);
    SlotView {
        cp: Seq::new(size, |j: int| 0i16),
        cn: Seq::new(size, |j: int| 0u8),
        st: Seq::new(size, |j: int| 0u8),
        ck: if assoc { Seq::new(size, |j: int| 0u8) } else { Seq::empty() },
        sm: Seq::new(2048, |j: int| 0x8000_0000u32),
        tmask: (size - 1) as u32,
        assoc,
        bmask: if assoc { (pow2((tb - 3) as u32) - 1) as u32 } else { 0 },
        cshift: if assoc { (tb - 3) as u32 } else { 0 },
        idx: 0,
        sm_idx: 0,
    }
}

/// 2^k for the table sizes in use.
pub open spec fn pow2(k: u32) -> nat
    decreases k,
{
    if k == 0 {
        1
    } else {
        2 * pow2((k - 1) as u32)
    }
}

/// Whether a view describes a usable model.
pub open spec fn slot_view_ok(s: SlotView) -> bool {
    let size = s.cp.len();
    &&& s.cn.len() == size
    &&& s.st.len() == size
    &&& s.sm.len() == 2048
    &&& 8 <= size <= 0x100_0000
    &&& s.idx < size
    &&& s.sm_idx < 2048
    &&& forall|j: int| 0 <= j < size ==> -2048 <= #[trigger] s.cp[j] <= 2047
    &&& if s.assoc {
        &&& s.ck.len() == size
        &&& (s.bmask as int + 1) * 8 == size
        &&& s.cshift < 32
    } else {
        s.tmask as int + 1 == size
    }
}

pub proof fn lemma_pow2_bounds(k: u32)
    requires
        k <= 24,
    ensures
        1 <= pow2(k) <= pow2(24),
        pow2(24) == 0x100_0000,
        k >= 3 ==> pow2(k) == 8 * pow2((k - 3) as u32),
    decreases k,
{
    reveal_with_fuel(pow2, 25);
    if k > 0 {
        lemma_pow2_bounds((k - 1) as u32);
    }
    if k >= 3 {
        reveal_with_fuel(pow2, 4);
    }
}

pub proof fn lemma_shift_pow2(k: u32)
    requires
        k <= 24,
    ensures
        (1u32 << k) as int == pow2(k),
        (1usize << k) as int == pow2(k),
    decreases k,
{
    lemma_pow2_bounds(k);
    if k == 0 {
        assert((1u32 << 0u32) == 1 && (1usize << 0u32) == 1) by (bit_vector);
    } else {
        lemma_shift_pow2((k - 1) as u32);
        let km = (k - 1) as u32;
        assert((1u32 << k) == 2 * (1u32 << km) && (1usize << k) == 2 * (1usize << km)) by (bit_vector)
            requires k == km + 1, km < 24;
    }
}

proof fn lemma_select_ok(s: SlotView, h: u32)
    requires
        slot_view_ok(s),
    ensures
        slot_view_ok(SlotView { idx: 0, ..slot_select(s, h).0 }),
        0 <= slot_select(s, h).1 < s.cp.len(),
        slot_select(s, h).0.cp.len() == s.cp.len(),
        slot_select(s, h).0.sm == s.sm,
        slot_select(s, h).0.assoc == s.assoc,
{
    if s.assoc {
        let m = s.bmask;
        assert((h & m) << 3u32 <= m * 8 && (h & m) <= m) by (bit_vector)
            requires m < 0x20_0000;
        let base = bucket(s, h);
        let chk = checksum(s, h);
        lemma_find_way(s.ck, base, chk, 0);
        lemma_min_way(s.cn, base, 8);
    } else {
        let m = s.tmask;
        crate::algorithm::model::matcher::lemma_mask_le(h, m);
    }
}

proof fn lemma_find_way_step(ck: Seq<u8>, base: int, chk: u8, k: int)
    requires
        0 <= k < 8,
    ensures
        ck[base + k] == chk ==> find_way(ck, base, chk, k) == k,
        ck[base + k] != chk ==> find_way(ck, base, chk, k) == find_way(ck, base, chk, k + 1),
{
}

proof fn lemma_min_way_step(cn: Seq<u8>, base: int, k: int)
    requires
        0 <= k,
    ensures
        min_way(cn, base, k + 1) == (if cn[base + k] < min_way(cn, base, k).0 {
            (cn[base + k], base + k)
        } else {
            min_way(cn, base, k)
        }),
{
}

proof fn lemma_find_way(ck: Seq<u8>, base: int, chk: u8, k: int)
    requires
        0 <= k <= 8,
    ensures
        k <= find_way(ck, base, chk, k) <= 8,
    decreases 8 - k,
{
    if k < 8 && ck[base + k] != chk {
        lemma_find_way(ck, base, chk, k + 1);
    }
}

proof fn lemma_min_way(cn: Seq<u8>, base: int, k: int)
    requires
        0 <= k,
    ensures
        base <= min_way(cn, base, k).1 <= base + k,
        base <= min_way(cn, base, k).1 < base + 8 || k > 8,
    decreases k,
{
    if k > 0 {
        lemma_min_way(cn, base, k - 1);
    }
}

/// One context model's tables and its current slot.
pub struct Slot {
    cp: Vec<i16>,
    cn: Vec<u8>,
    st: Vec<u8>,
    ck: Vec<u8>,
    sm: Vec<u32>,
    tmask: u32,
    assoc: bool,
    bmask: u32,
    cshift: u32,
    idx: usize,
    sm_idx: usize,
}

impl Slot {
    pub closed spec fn view(&self) -> SlotView {
        SlotView {
            cp: self.cp@,
            cn: self.cn@,
            st: self.st@,
            ck: self.ck@,
            sm: self.sm@,
            tmask: self.tmask,
            assoc: self.assoc,
            bmask: self.bmask,
            cshift: self.cshift,
            idx: self.idx,
            sm_idx: self.sm_idx,
        }
    }

    pub closed spec fn wf(&self) -> bool {
        slot_view_ok(self@)
    }

    /// A model with 2^tb zeroed slots (checksummed 8-way buckets when `assoc`)
    /// and a StateMap at probability 1/2.
    pub fn new(tb: u32, assoc: bool) -> (s: Self)
        requires
            3 <= tb <= 24,
        ensures
            s@ == slot_init(tb, assoc),
            s.wf(),
    {
        proof {
            lemma_shift_pow2(tb);
            lemma_shift_pow2((tb - 3) as u32);
            lemma_pow2_bounds(tb);
        }
        let size = 1usize << tb;
        let cp = vec![0i16; size];
        let cn = vec![0u8; size];
        let st = vec![0u8; size];
        let ck = if assoc { vec![0u8; size] } else { Vec::new() };
        let sm = vec![1u32 << 31; 256 * 8];
        assert((1u32 << 31u32) == 0x8000_0000u32) by (bit_vector);
        let tmask = (1u32 << tb) - 1;
        let bmask = if assoc { (1u32 << (tb - 3)) - 1 } else { 0 };
        let cshift = if assoc { tb - 3 } else { 0 };
        let s = Slot { cp, cn, st, ck, sm, tmask, assoc, bmask, cshift, idx: 0, sm_idx: 0 };
        assert(s@.cp =~= slot_init(tb, assoc).cp);
        assert(s@.cn =~= slot_init(tb, assoc).cn);
        assert(s@.st =~= slot_init(tb, assoc).st);
        assert(s@.ck =~= slot_init(tb, assoc).ck);
        assert(s@.sm =~= slot_init(tb, assoc).sm);
        s
    }

    /// Find (or claim) the slot for `ctxhash` at partial byte `c0` and bit
    /// position `bitcount`; return the counter's and the StateMap's stretched
    /// predictions.
    pub fn lookup(&mut self, ctxhash: u32, c0: i32, bitcount: i32, stretch: &[i32]) -> (r: (i32, i32))
        requires
            old(self).wf(),
            0 <= bitcount <= 7,
            stretch@ == stretch12_table(),
        ensures
            final(self)@ == slot_lookup(old(self)@, ctxhash, c0, bitcount),
            final(self).wf(),
            r.0 == slot_counter_input(final(self)@),
            r.1 == slot_state_input(final(self)@),
            -2047 <= r.0 <= 2047,
            -2047 <= r.1 <= 2047,
    {
        proof {
            lemma_select_ok(self@, slot_hash(ctxhash, c0));
            lemma_stretch_tables_range();
        }
        let h = ctxhash.wrapping_mul(769).wrapping_add(c0 as u32);
        let ix = if self.assoc {
            proof {
                let m = self.bmask;
                assert((h & m) << 3u32 <= m * 8) by (bit_vector)
                    requires m < 0x20_0000;
            }
            let base = ((h & self.bmask) << 3) as usize;
            assert(base + 8 <= self.cn@.len());
            let chk = #[verifier::truncate] ((h >> self.cshift) as u8);
            let ghost gbase = base as int;
            let mut sel = usize::MAX;
            let mut w = base;
            let mut lo = self.cn[base];
            let mut k: usize = 0;
            while k < WAYS && sel == usize::MAX
                invariant
                    self@ == old(self)@,
                    gbase == base,
                    base == bucket(self@, h),
                    chk == checksum(self@, h),
                    base + 8 <= self.cn@.len(),
                    self.cn@.len() <= 0x100_0000,
                    self.ck@.len() == self.cn@.len(),
                    k <= 8,
                    sel == usize::MAX ==> find_way(self.ck@, gbase, chk, 0) == find_way(self.ck@, gbase, chk, k as int),
                    sel == usize::MAX ==> (lo, w as int) == min_way(self.cn@, gbase, k as int),
                    sel != usize::MAX ==> sel == base + find_way(self.ck@, gbase, chk, 0) && find_way(self.ck@, gbase, chk, 0) < 8,
                decreases 8 - k + (if sel == usize::MAX { 1int } else { 0int }),
            {
                let s = base + k;
                if self.ck[s] == chk {
                    proof {
                        lemma_find_way_step(self.ck@, gbase, chk, k as int);
                    }
                    sel = s;
                } else {
                    proof {
                        lemma_find_way_step(self.ck@, gbase, chk, k as int);
                    }
                    proof {
                        lemma_min_way_step(self.cn@, gbase, k as int);
                    }
                    if self.cn[s] < lo {
                        lo = self.cn[s];
                        w = s;
                    }
                    k += 1;
                }
            }
            if sel != usize::MAX {
                sel
            } else {
                self.ck.set(w, chk);
                self.cp.set(w, 0);
                self.cn.set(w, 0);
                self.st.set(w, 0);
                w
            }
        } else {
            (h & self.tmask) as usize
        };
        self.idx = ix;
        let ci = self.cp[ix] as i32 + 2048;
        let in0 = stretch[ci as usize];
        let mi = (self.st[ix] as usize) | ((bitcount as usize) << 8);
        proof {
            let sv = self.st@[ix as int];
            assert((sv as usize) | ((bitcount as usize) << 8usize) < 2048) by (bit_vector)
                requires 0 <= bitcount <= 7;
        }
        self.sm_idx = mi;
        let smp = (self.sm[mi] >> 20) as usize;
        proof {
            let e = self.sm@[mi as int];
            assert(e >> 20u32 < 4096) by (bit_vector);
        }
        let in1 = stretch[smp];
        (in0, in1)
    }

    /// Learn `bit` at the looked-up slot: adapt the counter at the rate for
    /// its observation count, adapt the StateMap entry and advance the bit
    /// history.
    pub fn update(&mut self, bit: i32, rate: &[i32])
        requires
            old(self).wf(),
            0 <= bit <= 1,
            rate@ == rate_table(),
        ensures
            final(self)@ == slot_learn(old(self)@, bit),
            final(self).wf(),
    {
        let t: i32 = if bit != 0 { 4095 } else { 0 };
        let ix = self.idx;
        let n = self.cn[ix] as i32;
        let pr = self.cp[ix] as i32 + 2048;
        let r = rate[n as usize];
        proof {
            lemma_rate_range(n as int);
            lemma_counter_range(pr, t, r);
            assert(-4095 * 2048 <= (t - pr) * r <= 4095 * 2048) by (nonlinear_arith)
                requires -4095 <= t - pr <= 4095, 40 <= r <= 2048;
        }
        let np = (pr + (((t - pr) * r) >> 12)) - 2048;
        self.cp.set(ix, np as i16);
        if n < 254 {
            self.cn.set(ix, (n + 1) as u8);
        }
        let s = self.sm_idx;
        let entry = self.sm[s];
        proof {
            assert(entry & 1023u32 <= 1023 && entry >> 10u32 < 0x40_0000) by (bit_vector);
        }
        let cnt = (entry & 1023) as i32;
        let p22 = (entry >> 10) as i32;
        proof {
            crate::algorithm::model::mixer::lemma_bit_shifts(bit);
        }
        let num = (bit << 22) - p22;
        let q = num / (cnt + 2);
        assert(q == tdiv(num as int, cnt + 2));
        let newp = p22 + q;
        let newcnt = if cnt < 511 { cnt + 1 } else { 511 };
        self.sm.set(s, ((#[verifier::truncate] (newp as u32)) << 10) | (newcnt as u32));
        self.st.set(ix, next_state(#[verifier::truncate] (s as u8), bit));
    }
}

proof fn lemma_rate_range(n: int)
    requires
        0 <= n <= 255,
    ensures
        40 <= rate_of(n) <= 2048,
{
    assert(4096int / (n + 2) <= 2048) by (nonlinear_arith)
        requires n >= 0;
}

proof fn lemma_counter_range(pr: i32, t: i32, r: i32)
    requires
        0 <= pr <= 4095,
        t == 0 || t == 4095,
        40 <= r <= 2048,
    ensures
        0 <= counter_adapt(pr, t, r) <= 4095,
{
    let x = (t - pr) * r;
    assert(-4095 * 2048 <= x <= 4095 * 2048) by (nonlinear_arith)
        requires x == (t - pr) * r, -4095 <= t - pr <= 4095, 40 <= r <= 2048;
    let xi = x as i32;
    let q = xi >> 12i32;
    assert(q * 4096 <= xi && xi < q * 4096 + 4096) by (bit_vector)
        requires q == xi >> 12i32, -0x80_0000 <= xi <= 0x80_0000;
    if t == 4095 {
        assert(0 <= x <= (4095 - pr) * 2048) by (nonlinear_arith)
            requires x == (4095 - pr) * r, 0 <= 4095 - pr, r <= 2048, r >= 0;
    } else {
        assert(-pr * 2048 <= x <= 0) by (nonlinear_arith)
            requires x == (0 - pr) * r, 0 <= pr, r <= 2048, r >= 0;
    }
}

} // verus!

//! Adaptive probability map (SSE): refines a 16-bit probability under a
//! context by interpolating a learned calibration curve.

use vstd::prelude::*;
use crate::algorithm::tables::{squash_at, squash12_table, stretch16_table, lemma_stretch_tables_range};

verus! {

/// Interpolation points per context.
pub const APM_S: usize = 33;

/// The abstract state of an APM.
pub struct ApmView {
    pub t: Seq<u16>,
    pub idx: int,
}

/// Initial calibration value of point `j`: the identity curve, sampled every
/// 128 logits and scaled to 16 bits.
pub open spec fn apm_point(j: int) -> u16 {
    (squash_at(squash12_table(), (j - 16) * 128, 0, 4095) * 16) as u16
}

/// A fresh APM over `n` contexts.
pub open spec fn apm_init(n: int) -> ApmView {
    ApmView { t: Seq::new((n * 33) as nat, |k: int| apm_point(k % 33)), idx: 0 }
}

/// Interpolation weight of the upper point for the stretched probability.
pub open spec fn apm_weight(p: i32) -> i32 {
    ((stretch16_table()[p as int] + 2048) as i32) & 127
}

/// Index of the lower interpolation point for `p` under context `ctx`.
pub open spec fn apm_index(ctx: int, p: i32) -> int {
    ctx * 33 + (((stretch16_table()[p as int] + 2048) as i32) >> 7i32) as int
}

/// The APM's refined probability for `p` under `ctx`, clamped to [1, 65534].
pub open spec fn apm_value(a: ApmView, ctx: int, p: i32) -> i32 {
    let i = apm_index(ctx, p);
    let w = apm_weight(p);
    let lo = a.t[i] as i32;
    let hi = a.t[i + 1] as i32;
    let pp = ((lo * (128 - w) + hi * w) as i32) >> 7i32;
    if pp < 1 {
        1
    } else if pp > 65534 {
        65534
    } else {
        pp as i32
    }
}

/// The state after `apply16`: it remembers which point pair it used.
pub open spec fn apm_apply(a: ApmView, ctx: int, p: i32) -> ApmView {
    ApmView { idx: apm_index(ctx, p), ..a }
}

/// One calibration value moved 1/128 of the way towards the observed bit.
pub open spec fn apm_adapt(v: u16, bit: i32) -> u16 {
    let g = (bit << 16i32) + (bit << 4i32) - bit - bit;
    let a = v as i32;
    (a + (((g - a) as i32) >> 7i32)) as u16
}

/// The state after learning `bit` at the last used point pair.
pub open spec fn apm_learn(a: ApmView, bit: i32) -> ApmView {
    ApmView {
        t: a.t.update(a.idx, apm_adapt(a.t[a.idx], bit)).update(a.idx + 1, apm_adapt(a.t[a.idx + 1], bit)),
        ..a
    }
}

pub struct Apm {
    t: Vec<u16>,
    idx: usize,
}

impl Apm {
    pub closed spec fn view(&self) -> ApmView {
        ApmView { t: self.t@, idx: self.idx as int }
    }

    /// The number of contexts the table holds.
    pub closed spec fn contexts(&self) -> int {
        self.t@.len() as int / 33
    }

    /// The table has whole rows and the remembered pair lies inside it.
    pub closed spec fn wf(&self) -> bool {
        &&& self.t@.len() % 33 == 0
        &&& self.t@.len() >= 33
        &&& self.idx + 1 < self.t@.len()
    }

    /// An APM over `n` contexts, every row the identity curve.
    pub fn new(n: usize, squash: &[i32]) -> (a: Self)
        requires
            n >= 1,
            n * 33 <= usize::MAX,
            squash@ == squash12_table(),
        ensures
            a@ == apm_init(n as int),
            a.wf(),
            a.contexts() == n,
    {
        let mut t: Vec<u16> = Vec::new();
        let mut c: usize = 0;
        while c < n
            invariant
                c <= n,
                n * 33 <= usize::MAX,
                squash@ == squash12_table(),
                t@.len() == c * 33,
                forall|k: int| 0 <= k < t@.len() ==> #[trigger] t@[k] == apm_point(k % 33),
            decreases n - c,
        {
            let mut j: usize = 0;
            while j < APM_S
                invariant
                    c < n,
                    n * 33 <= usize::MAX,
                    j <= 33,
                    squash@ == squash12_table(),
                    t@.len() == c * 33 + j,
                    forall|k: int| 0 <= k < t@.len() ==> #[trigger] t@[k] == apm_point(k % 33),
                decreases 33 - j,
            {
                let v = crate::algorithm::tables::squash_d(squash, (j as i32 - 16) * 128);
                proof {
                    assert((c * 33 + j) % 33 == j) by (nonlinear_arith)
                        requires j < 33;
                }
                t.push(#[verifier::truncate] ((v * 16) as u16));
                j += 1;
            }
            c += 1;
        }
        proof {
            assert(n * 33 >= 33) by (nonlinear_arith)
                requires n >= 1;
            assert((n * 33) % 33 == 0) by (nonlinear_arith);
        }
        let a = Apm { t, idx: 0 };
        assert(a@.t =~= apm_init(n as int).t);
        a
    }

    /// 16-bit SSE step: stretch `p` through the 16-bit table, interpolate the
    /// calibration row of `ctx`, return a 16-bit probability.
    pub fn apply16(&mut self, stretch16: &[i32], ctx: usize, p: i32) -> (r: i32)
        requires
            old(self).wf(),
            ctx < old(self).contexts(),
            1 <= p <= 65534,
            stretch16@ == stretch16_table(),
        ensures
            final(self)@ == apm_apply(old(self)@, ctx as int, p),
            r == apm_value(old(self)@, ctx as int, p),
            final(self).wf(),
            final(self).contexts() == old(self).contexts(),
            1 <= r <= 65534,
    {
        proof {
            lemma_stretch_tables_range();
        }
        let sv = stretch16[p as usize];
        assert(-2047 <= sv <= 2047);
        let s = sv + 2048;
        let w = s & 127;
        let js = s >> 7;
        proof {
            assert(0 <= w <= 127 && 0 <= js <= 31) by (bit_vector)
                requires 1 <= s <= 4095, w == s & 127, js == s >> 7;
        }
        let len = self.t.len();
        proof {
            assert(ctx * 33 + 33 <= len) by (nonlinear_arith)
                requires ctx < len as int / 33, len % 33 == 0;
        }
        let j = js as usize;
        self.idx = ctx * 33 + j;
        let lo = self.t[self.idx] as i32;
        let hi = self.t[self.idx + 1] as i32;
        proof {
            assert(0 <= lo * (128 - w) <= 65535 * 128) by (nonlinear_arith)
                requires 0 <= lo <= 65535, 0 <= w <= 127;
            assert(0 <= hi * w <= 65535 * 128) by (nonlinear_arith)
                requires 0 <= hi <= 65535, 0 <= w <= 127;
        }
        let mut pp = (lo * (128 - w) + hi * w) >> 7;
        if pp < 1 {
            pp = 1;
        }
        if pp > 65534 {
            pp = 65534;
        }
        pp
    }

    /// Move the last used point pair towards the observed `bit`.
    pub fn update(&mut self, bit: i32)
        requires
            old(self).wf(),
            0 <= bit <= 1,
        ensures
            final(self)@ == apm_learn(old(self)@, bit),
            final(self).wf(),
            final(self).contexts() == old(self).contexts(),
    {
        proof {
            crate::algorithm::model::mixer::lemma_bit_shifts(bit);
        }
        let g = (bit << 16) + (bit << 4) - bit - bit;
        let i = self.idx;
        let len = self.t.len();
        assert(i + 1 < len);
        let a = self.t[i] as i32;
        let b = self.t[i + 1] as i32;
        proof {
            let x = (g - a) as i32;
            let y = (g - b) as i32;
            assert(-512 <= (x >> 7i32) <= 513 && -512 <= (y >> 7i32) <= 513) by (bit_vector)
                requires -65535 <= x <= 65550, -65535 <= y <= 65550;
        }
        self.t.set(i, #[verifier::truncate] ((a + ((g - a) >> 7)) as u16));
        self.t.set(i + 1, #[verifier::truncate] ((b + ((g - b) >> 7)) as u16));
    }
}

} // verus!

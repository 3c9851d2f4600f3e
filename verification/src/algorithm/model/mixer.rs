//! Context-selected logistic mixer: `nctx` weight rows of `n` inputs; each
//! step picks one row by context, dot-products it with the stretched inputs to
//! get a logit, and trains that row online towards the observed bit.

use vstd::prelude::*;
use crate::algorithm::tables::{clamp, squash_at, squash12_table};

verus! {

/// The abstract state of a mixer.
pub struct MixerView {
    pub n: usize,
    pub nctx: usize,
    pub w: Seq<i32>,
    pub ctx: usize,
    pub pr: i32,
    pub lr: i32,
}

/// Sum of the first `k` products of row `w[base..]` with the inputs `x`.
pub open spec fn dot(w: Seq<i32>, base: int, x: Seq<i32>, k: int) -> int
    decreases k,
{
    if k <= 0 {
        0
    } else {
        dot(w, base, x, k - 1) + w[base + k - 1] * x[k - 1]
    }
}

/// The row a context selects.
pub open spec fn mixer_row(m: MixerView, ctx: usize) -> usize {
    ctx & ((m.nctx - 1) as usize)
}

/// The mixer's output logit for inputs `x` under context `ctx`.
pub open spec fn mixer_logit(m: MixerView, x: Seq<i32>, ctx: usize) -> i32 {
    let c = mixer_row(m, ctx);
    let d = ((dot(m.w, c * m.n, x, m.n as int) as i64) >> 16i64) as i32;
    clamp(d as int, -2047, 2047) as i32
}

/// The state after mixing: the selected row and the squashed prediction
/// (clamped to [1, 4094]) are remembered for learning.
pub open spec fn mixer_mix(m: MixerView, x: Seq<i32>, ctx: usize) -> MixerView {
    let d = mixer_logit(m, x, ctx);
    MixerView {
        ctx: mixer_row(m, ctx),
        pr: clamp(squash_at(squash12_table(), d as int, 0, 4095), 1, 4094) as i32,
        ..m
    }
}

/// Weight `j` after learning `bit` on the remembered row.
pub open spec fn mixer_weight(m: MixerView, x: Seq<i32>, bit: i32, j: int) -> i32 {
    let base = m.ctx * m.n;
    let err = (bit << 12i32) - m.pr;
    if base <= j < base + m.n {
        vstd::wrapping::i32_specs::wrapping_add(m.w[j], ((x[j - base] * err * m.lr) as i32) >> 16i32)
    } else {
        m.w[j]
    }
}

/// The state after learning `bit`.
pub open spec fn mixer_learn(m: MixerView, x: Seq<i32>, bit: i32) -> MixerView {
    MixerView { w: Seq::new(m.w.len(), |j: int| mixer_weight(m, x, bit, j)), ..m }
}

/// A fresh mixer: every weight 1/n in 16-bit fixed point.
pub open spec fn mixer_init(n: usize, nctx: usize, lr: i32) -> MixerView {
    MixerView { n, nctx, w: Seq::new((n * nctx) as nat, |j: int| (65536int / (n as int)) as i32), ctx: 0, pr: 2048, lr }
}

/// Every input lies in the logit range.
pub open spec fn inputs_ok(x: Seq<i32>, n: int) -> bool {
    x.len() == n && forall|i: int| 0 <= i < n ==> -2047 <= #[trigger] x[i] <= 2047
}

/// Shifting a bit left multiplies it by the power of two.
pub proof fn lemma_bit_shifts(bit: i32)
    requires
        0 <= bit <= 1,
    ensures
        (bit << 4i32) == bit * 16,
        (bit << 12i32) == bit * 4096,
        (bit << 16i32) == bit * 65536,
        (bit << 22i32) == bit * 0x40_0000,
{
    assert((bit << 4i32) == bit * 16 && (bit << 12i32) == bit * 4096 && (bit << 16i32) == bit * 65536
        && (bit << 22i32) == bit * 0x40_0000) by (bit_vector)
        requires 0 <= bit <= 1;
}

/// Whether a view describes a usable mixer.
pub open spec fn mixer_view_ok(m: MixerView) -> bool {
    &&& 1 <= m.n <= 256
    &&& 1 <= m.nctx <= 0x10000
    &&& m.w.len() == m.n * m.nctx
    &&& m.ctx < m.nctx
    &&& 1 <= m.pr <= 4094
    &&& 1 <= m.lr <= 16
}

proof fn lemma_dot_bound(w: Seq<i32>, base: int, x: Seq<i32>, k: int)
    requires
        0 <= k <= x.len(),
        forall|i: int| 0 <= i < x.len() ==> -2047 <= #[trigger] x[i] <= 2047,
    ensures
        -k * 0x8000_0000 * 2047 <= dot(w, base, x, k) <= k * 0x8000_0000 * 2047,
    decreases k,
{
    if k > 0 {
        lemma_dot_bound(w, base, x, k - 1);
        let a = w[base + k - 1] as int;
        let b = x[k - 1] as int;
        assert(-0x8000_0000 * 2047 <= a * b <= 0x8000_0000 * 2047) by (nonlinear_arith)
            requires -0x8000_0000 <= a < 0x8000_0000, -2047 <= b <= 2047;
    }
}

/// Whether mixing `x` under `ctx` keeps every partial dot product within
/// 64 bits (and `x` has an input for every weight).
pub open spec fn dot_fits(m: MixerView, x: Seq<i32>, ctx: usize) -> bool {
    &&& x.len() >= m.n
    &&& forall|k: int| 0 <= k <= m.n ==> i64::MIN <= #[trigger] dot(m.w, mixer_row(m, ctx) * m.n, x, k) <= i64::MAX
}

pub proof fn lemma_mix_keeps_ok(m: MixerView, x: Seq<i32>, ctx: usize)
    requires
        mixer_view_ok(m),
    ensures
        mixer_view_ok(mixer_mix(m, x, ctx)),
        -2047 <= mixer_logit(m, x, ctx) <= 2047,
{
    let c = mixer_row(m, ctx);
    let k = (m.nctx - 1) as usize;
    assert(ctx & k <= k) by (bit_vector);
    crate::algorithm::tables::lemma_squash_tables_range();
}

/// Inputs in the logit range never overflow a mixer's dot product.
pub proof fn lemma_inputs_fit(m: MixerView, x: Seq<i32>, ctx: usize)
    requires
        mixer_view_ok(m),
        inputs_ok(x, m.n as int),
    ensures
        dot_fits(m, x, ctx),
{
    assert forall|k: int| 0 <= k <= m.n implies i64::MIN <= #[trigger] dot(m.w, mixer_row(m, ctx) * m.n, x, k) <= i64::MAX by {
        lemma_dot_bound(m.w, mixer_row(m, ctx) * m.n, x, k);
        assert(k * 0x8000_0000 * 2047 <= 256 * 0x8000_0000 * 2047) by (nonlinear_arith)
            requires 0 <= k <= 256;
    }
}

pub struct Mixer {
    n: usize,
    nctx: usize,
    w: Vec<i32>,
    ctx: usize,
    pr: i32,
    lr: i32,
}

impl Mixer {
    pub closed spec fn view(&self) -> MixerView {
        MixerView { n: self.n, nctx: self.nctx, w: self.w@, ctx: self.ctx, pr: self.pr, lr: self.lr }
    }

    pub closed spec fn wf(&self) -> bool {
        mixer_view_ok(self@)
    }

    /// Inputs in the logit range never overflow this mixer's dot product.
    pub proof fn lemma_fits(&self, x: Seq<i32>, ctx: usize)
        requires
            self.wf(),
            inputs_ok(x, self@.n as int),
        ensures
            dot_fits(self@, x, ctx),
    {
        lemma_inputs_fit(self@, x, ctx);
    }

    /// A mixer of `nctx` rows of `n` weights, each 1/n; learning rate `lr`.
    pub fn new(n: usize, nctx: usize, lr: i32) -> (m: Self)
        requires
            1 <= n <= 256,
            1 <= nctx <= 0x10000,
            1 <= lr <= 16,
        ensures
            m@ == mixer_init(n, nctx, lr),
            m.wf(),
    {
        assert(n * nctx <= 0x100_0000) by (nonlinear_arith)
            requires n <= 256, nctx <= 0x10000;
        assert((1i32 << 16i32) == 65536) by (bit_vector);
        let w0 = (1i32 << 16) / n as i32;
        let w = vec![w0; n * nctx];
        let m = Mixer { n, nctx, w, ctx: 0, pr: 2048, lr };
        assert(m@.w =~= mixer_init(n, nctx, lr).w);
        m
    }

    /// Mix `inputs` under context `ctx`; returns the clamped logit and
    /// remembers the row and the squashed prediction for `update`.
    pub fn mix(&mut self, inputs: &[i32], squash: &[i32], ctx: usize) -> (d: i32)
        requires
            old(self).wf(),
            dot_fits(old(self)@, inputs@, ctx),
            squash@ == squash12_table(),
        ensures
            d == mixer_logit(old(self)@, inputs@, ctx),
            final(self)@ == mixer_mix(old(self)@, inputs@, ctx),
            final(self).wf(),
            -2047 <= d <= 2047,
    {
        proof {
            lemma_mix_keeps_ok(self@, inputs@, ctx);
        }
        let ghost ctx0 = ctx;
        let ctx = ctx & (self.nctx - 1);
        self.ctx = ctx;
        let n = self.n;
        let wlen = self.w.len();
        proof {
            assert(ctx * n + n <= wlen) by (nonlinear_arith)
                requires ctx < self.nctx, wlen == n * self.nctx;
        }
        let base = ctx * n;
        let mut dot: i64 = 0;
        let mut i: usize = 0;
        while i < n
            invariant
                i <= n,
                n == self.n,
                base + n <= self.w@.len(),
                self.w@.len() <= usize::MAX,
                1 <= n <= 256,
                inputs@.len() >= n,
                base == mixer_row(old(self)@, ctx0) * n,
                self.w@ == old(self)@.w,
                n == old(self)@.n,
                forall|k: int| 0 <= k <= n ==> i64::MIN <= #[trigger] crate::algorithm::model::mixer::dot(self.w@, base as int, inputs@, k) <= i64::MAX,
                dot == crate::algorithm::model::mixer::dot(self.w@, base as int, inputs@, i as int),
            decreases n - i,
        {
            let wi = self.w[base + i] as i64;
            let xi = inputs[i] as i64;
            proof {
                assert(-0x4000_0000_0000_0000 <= wi * xi <= 0x4000_0000_0000_0000) by (nonlinear_arith)
                    requires -0x8000_0000 <= wi < 0x8000_0000, -0x8000_0000 <= xi < 0x8000_0000;
                assert(crate::algorithm::model::mixer::dot(self.w@, base as int, inputs@, i + 1) == dot + wi * xi);
            }
            dot = dot + wi * xi;
            i += 1;
        }
        let mut d = #[verifier::truncate] ((dot >> 16) as i32);
        if d > 2047 {
            d = 2047;
        }
        if d < -2047 {
            d = -2047;
        }
        let mut p = crate::algorithm::tables::squash_d(squash, d);
        if p < 1 {
            p = 1;
        }
        if p > 4094 {
            p = 4094;
        }
        self.pr = p;
        d
    }

    /// Train the remembered row towards `bit` using this mixer's own
    /// prediction.
    pub fn update(&mut self, bit: i32, inputs: &[i32])
        requires
            old(self).wf(),
            0 <= bit <= 1,
            inputs_ok(inputs@, old(self)@.n as int),
        ensures
            final(self)@ == mixer_learn(old(self)@, inputs@, bit),
            final(self).wf(),
    {
        proof {
            lemma_bit_shifts(bit);
        }
        let err = (bit << 12) - self.pr;
        let n = self.n;
        let wlen = self.w.len();
        proof {
            assert(self.ctx * n + n <= wlen) by (nonlinear_arith)
                requires self.ctx < self.nctx, wlen == n * self.nctx;
        }
        let base = self.ctx * n;
        let ghost m0 = self@;
        let mut i: usize = 0;
        while i < n
            invariant
                i <= n,
                n == self.n,
                m0 == old(self)@,
                base == m0.ctx * m0.n,
                base + n <= self.w@.len(),
                self.w@.len() <= usize::MAX,
                self.w@.len() == m0.w.len(),
                err == (bit << 12i32) - m0.pr,
                -4094 <= err <= 4095,
                self.lr == m0.lr,
                1 <= self.lr <= 16,
                self@ == (MixerView { w: self.w@, ..m0 }),
                inputs_ok(inputs@, n as int),
                forall|j: int| 0 <= j < self.w@.len() ==> #[trigger] self.w@[j] == if base <= j < base + i {
                    mixer_weight(m0, inputs@, bit, j)
                } else {
                    m0.w[j]
                },
            decreases n - i,
        {
            let x = inputs[i];
            proof {
                assert(-2047 * 4095 <= x * err <= 2047 * 4095) by (nonlinear_arith)
                    requires -2047 <= x <= 2047, -4094 <= err <= 4095;
                assert(-2047 * 4095 * 16 <= (x * err) * self.lr <= 2047 * 4095 * 16) by (nonlinear_arith)
                    requires -2047 * 4095 <= x * err <= 2047 * 4095, 1 <= self.lr <= 16;
            }
            let delta = (x * err * self.lr) >> 16;
            let cur = self.w[base + i];
            self.w.set(base + i, cur.wrapping_add(delta));
            i += 1;
        }
        assert(self@.w =~= mixer_learn(m0, inputs@, bit).w);
    }
}

} // verus!

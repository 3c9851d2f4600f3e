//! The full predictor: 99 context models, six match models, 27 layer-1
//! specialist mixers, 10 layer-2 combiners and a four-stage 16-bit APM chain.
//!
//! Its behaviour is specified as pure functions of an abstract state
//! (`CmView`): `cm_predict` gives the next probability and `cm_update` the
//! state after a bit, so two runs fed the same bits make the same
//! predictions.

use vstd::prelude::*;
use crate::algorithm::tables::{
    build, build16, clamp, squash_at, squash12_table, squash16_table, stretch12_table, stretch16_table,
    squash16_d, lemma_squash_tables_range,
};
use crate::algorithm::model::apm::{Apm, ApmView, apm_init, apm_apply, apm_value, apm_learn};
use crate::algorithm::model::mixer::{
    Mixer, MixerView, mixer_init, mixer_mix, mixer_logit, mixer_learn, inputs_ok,
};
use crate::algorithm::model::slot::{
    Slot, SlotView, slot_init, slot_lookup, slot_learn, slot_counter_input, slot_state_input,
    rate_of, rate_table, tdiv,
};
use crate::algorithm::model::matcher::{
    MatchModel, MatchView, mm_init, mm_predict, mm_input, mm_learn, mm_on_byte, mm_find,
    mm_set_predicted, mm_ptr_ok, buf_ok,
};
use crate::algorithm::model::history::{
    HistView, History, hist_ok, hist_init, hist_learn, hist_push, hist_reset, back,
};
use crate::algorithm::model::follow::{
    Follow, follow_ok, follow_init, follow_record, follow_entry, follow_index, follow_active,
};
use crate::algorithm::model::contexts::{ctx_hash, context_hash, above_of, above};
use crate::algorithm::model::selectors::{l1_ctx, l2_ctx, l1_ctx_exec, l2_ctx_exec};

verus! {

/// Number of context models.
pub const NCTX: usize = 99;
/// Number of mixer inputs: two per context model, six match models and one
/// reserved recurrent input (always 0).
pub const NINPUT: usize = 205;
/// Number of layer-1 mixers.
pub const NL1: usize = 27;
/// Number of layer-2 combiners.
pub const NL2: usize = 10;

/// The abstract state of the predictor.
pub struct CmView {
    pub slots: Seq<SlotView>,
    pub ctxhash: Seq<u32>,
    pub mix_in: Seq<i32>,
    pub l1: Seq<MixerView>,
    pub l2: Seq<MixerView>,
    pub l2_in: Seq<i32>,
    pub mm: Seq<MatchView>,
    pub apm: Seq<ApmView>,
    pub hist: HistView,
    pub follow: Seq<Seq<u32>>,
}

// ---------------------------------------------------------------------------
// Initial state
// ---------------------------------------------------------------------------

/// Whether context model `i` uses associative buckets (all but the
/// low-cardinality ones).
pub open spec fn ctx_assoc(i: int) -> bool {
    !(i == 0 || i == 1 || i == 2 || i == 8 || i == 93)
}

/// log2 of context model `i`'s table size for an input of `n` bytes.
pub open spec fn ctx_bits(i: int, n: nat) -> u32 {
    if i == 0 {
        9
    } else if ctx_assoc(i) {
        if n >= 262_144 { 23 } else { 22 }
    } else {
        23
    }
}

/// Rows of layer-1 mixer `k`.
pub open spec fn l1_rows(k: int) -> usize {
    if k == 0 {
        16384
    } else if k == 3 || k == 4 || k == 7 || k == 8 {
        8192
    } else if k == 6 || k == 9 || k == 10 || k == 14 {
        4096
    } else if k == 13 {
        1024
    } else if k == 11 {
        512
    } else if k == 5 || k == 17 || k == 20 || k == 24 || k == 25 || k == 26 {
        64
    } else if k == 18 || k == 21 || k == 22 {
        32
    } else if k == 19 {
        16
    } else {
        256
    }
}

/// Rows of layer-2 combiner `k`.
pub open spec fn l2_rows(k: int) -> usize {
    if k == 8 { 512 } else { 256 }
}

/// Contexts of APM stage `k`.
pub open spec fn apm_rows(k: int) -> usize {
    if k == 1 { 16384 } else { 1024 }
}

/// Match model `k`'s parameters and fresh state.
pub open spec fn mm_fresh(k: int) -> MatchView {
    if k == 0 {
        mm_init(6, 23, 32, 6, 0, 80)
    } else if k == 1 {
        mm_init(8, 23, 32, 6, 8, 80)
    } else if k == 2 {
        mm_init(10, 22, 84, 5, 10, 184)
    } else if k == 3 {
        mm_init(12, 23, 72, 1, 12, 160)
    } else if k == 4 {
        mm_init(14, 23, 72, 5, 14, 160)
    } else {
        mm_init(2, 23, 32, 5, 2, 80)
    }
}

/// Doubling from `b` while below `n + 16` and 2^27.
pub open spec fn buf_grow(b: nat, n: nat) -> nat
    decreases 0x1000_0000 - b,
{
    if b > 0 && b < n + 16 && b < 0x800_0000 {
        buf_grow(2 * b, n)
    } else {
        b
    }
}

/// History buffer size for an input of `n` bytes: the least power of two
/// reaching n + 16 (at most 2^27, at least 2^16).
pub open spec fn buf_size(n: nat) -> nat {
    let b = buf_grow(1, n);
    if b < 0x1_0000 { 0x1_0000 } else { b }
}

/// The predictor for an input of `n` bytes, before the first byte starts.
pub open spec fn cm_init(n: nat) -> CmView {
    CmView {
        slots: Seq::new(99, |i: int| slot_init(ctx_bits(i, n), ctx_assoc(i))),
        ctxhash: Seq::new(99, |i: int| 0u32),
        mix_in: Seq::new(205, |i: int| 0i32),
        l1: Seq::new(27, |k: int| mixer_init(205, l1_rows(k), 8)),
        l2: Seq::new(10, |k: int| mixer_init(27, l2_rows(k), 10)),
        l2_in: Seq::new(27, |i: int| 0i32),
        mm: Seq::new(6, |k: int| mm_fresh(k)),
        apm: Seq::new(4, |k: int| apm_init(apm_rows(k) as int)),
        hist: hist_init(buf_size(n)),
        follow: follow_init(),
    }
}

// ---------------------------------------------------------------------------
// Prediction
// ---------------------------------------------------------------------------

/// Look up every context model's slot and collect its two inputs.
pub open spec fn predict_contexts(s: CmView) -> CmView {
    let sl = Seq::new(99, |i: int| slot_lookup(s.slots[i], s.ctxhash[i], s.hist.c0, s.hist.bitcount));
    CmView {
        slots: sl,
        mix_in: Seq::new(205, |j: int| if j < 99 {
            slot_counter_input(sl[j])
        } else if j < 198 {
            slot_state_input(sl[j - 99])
        } else {
            s.mix_in[j]
        }),
        ..s
    }
}

/// Check every match model against the partial byte and collect its input;
/// the reserved recurrent input is 0.
pub open spec fn predict_matches(s: CmView) -> CmView {
    let c0 = s.hist.c0;
    let bc = s.hist.bitcount;
    CmView {
        mm: Seq::new(6, |k: int| mm_predict(s.mm[k], c0, bc)),
        mix_in: Seq::new(205, |j: int| if 198 <= j < 204 {
            mm_input(s.mm[j - 198], c0, bc)
        } else if j == 204 {
            0
        } else {
            s.mix_in[j]
        }),
        ..s
    }
}

/// Selector context of layer-1 mixer `k` in state `s`.
pub open spec fn l1_sel(s: CmView, k: int) -> usize {
    l1_ctx(s.hist, s.mm[0].len, s.mm[1].len, s.mm[2].len, s.mm[3].len, k)
}

/// Selector context of layer-2 combiner `k` in state `s`.
pub open spec fn l2_sel(s: CmView, k: int) -> usize {
    l2_ctx(s.hist, s.mm[0].len, s.mm[1].len, s.mm[2].len, s.mm[3].len, k)
}

/// Run the layer-1 specialists.
pub open spec fn predict_layer1(s: CmView) -> CmView {
    CmView {
        l1: Seq::new(27, |k: int| mixer_mix(s.l1[k], s.mix_in, l1_sel(s, k))),
        l2_in: Seq::new(27, |k: int| mixer_logit(s.l1[k], s.mix_in, l1_sel(s, k))),
        ..s
    }
}

/// Sum of the first `k` layer-2 logits.
pub open spec fn l2_sum(s: CmView, k: int) -> int
    decreases k,
{
    if k <= 0 {
        0
    } else {
        l2_sum(s, k - 1) + mixer_logit(s.l2[k - 1], s.l2_in, l2_sel(s, k - 1))
    }
}

/// Average of two probabilities (weights 1:1 or 3:1), clamped to [1, 65534].
pub open spec fn blend(p: i32, a: i32, three: bool) -> i32 {
    let v = if three { ((3 * p + a) as i32) >> 2u32 } else { ((p + a) as i32) >> 1u32 };
    clamp(v as int, 1, 65534) as i32
}

/// Contexts of the four APM stages.
pub open spec fn apm_ctx(s: CmView, k: int) -> usize {
    let m1 = s.mm[0].len;
    let m3 = s.mm[2].len;
    let m4 = s.mm[3].len;
    if k == 0 {
        ((s.hist.c1 | (if m1 > 0 { 256i32 } else { 0i32 })) as usize) & 1023
    } else if k == 1 {
        (s.hist.c4 & 0x3fff) as usize
    } else if k == 2 {
        (s.hist.c0 as usize) | (if m1 > 0 { 256usize } else { 0usize }) | (if m3 > 0 { 512usize } else { 0usize })
    } else {
        ((m1 as usize) & 0xff) | (if m3 > 0 { 256usize } else { 0usize }) | (if m4 > 0 { 512usize } else { 0usize })
    }
}

/// The probability entering APM stage `k` (k = 4: the final output).
pub open spec fn apm_chain(s: CmView, k: int) -> i32
    decreases k,
{
    if k <= 0 {
        clamp(squash_at(squash16_table(), tdiv(l2_sum(s, 10), 10), 1, 65534), 1, 65534) as i32
    } else {
        let p = apm_chain(s, k - 1);
        blend(p, apm_value(s.apm[k - 1], apm_ctx(s, k - 1) as int, p), k == 4)
    }
}

/// Run the layer-2 combiners and the APM chain.
pub open spec fn predict_final(s: CmView) -> CmView {
    CmView {
        l2: Seq::new(10, |k: int| mixer_mix(s.l2[k], s.l2_in, l2_sel(s, k))),
        apm: Seq::new(4, |k: int| apm_apply(s.apm[k], apm_ctx(s, k) as int, apm_chain(s, k))),
        ..s
    }
}

/// The state after a prediction.
pub open spec fn cm_predict_state(s: CmView) -> CmView {
    predict_final(predict_layer1(predict_matches(predict_contexts(s))))
}

/// The 16-bit probability that the next bit is 1.
pub open spec fn cm_prediction(s: CmView) -> i32 {
    apm_chain(predict_layer1(predict_matches(predict_contexts(s))), 4)
}

// ---------------------------------------------------------------------------
// Update
// ---------------------------------------------------------------------------

/// Every adaptive component learns `bit`; the partial byte takes it.
pub open spec fn learn_bit(s: CmView, bit: i32) -> CmView {
    CmView {
        apm: Seq::new(4, |k: int| apm_learn(s.apm[k], bit)),
        mm: Seq::new(6, |k: int| mm_learn(s.mm[k], bit)),
        l1: Seq::new(27, |k: int| mixer_learn(s.l1[k], s.mix_in, bit)),
        l2: Seq::new(10, |k: int| mixer_learn(s.l2[k], s.l2_in, bit)),
        slots: Seq::new(99, |i: int| slot_learn(s.slots[i], bit)),
        hist: hist_learn(s.hist, bit),
        ..s
    }
}

/// A byte completed: advance the match models, record the indirect
/// contexts, append the byte to the history, look for new matches and fix
/// the predicted bytes; then start a new partial byte.
pub open spec fn end_byte(s: CmView) -> CmView {
    let byte = (s.hist.c0 & 0xff) as u8;
    let h = hist_push(s.hist, byte);
    let mm1 = Seq::new(6, |k: int| mm_on_byte(s.mm[k], byte));
    let mm2 = Seq::new(6, |k: int| mm_find(mm1[k], h.c4, h.buf, h.bufmask, h.pos));
    CmView {
        mm: Seq::new(6, |k: int| mm_set_predicted(mm2[k], h.buf, h.bufmask, h.pos)),
        follow: follow_record(s.follow, s.hist, byte),
        hist: hist_reset(h),
        ..s
    }
}

/// Recompute the context hashes, the byte above and the indirect prediction
/// at a byte boundary.
pub open spec fn byte_start_spec(s: CmView) -> CmView {
    CmView {
        ctxhash: Seq::new(99, |i: int| ctx_hash(s.hist, s.follow, i)),
        hist: HistView {
            above_byte: above_of(s.hist),
            ind_pred: follow_entry(s.follow, s.hist, 1) & 0xff,
            ..s.hist
        },
        ..s
    }
}

/// Starting a byte twice is starting it once: the per-byte contexts are
/// derived from the history and follow tables, which starting a byte does not
/// change.
pub proof fn lemma_byte_start_idempotent(s: CmView)
    ensures
        byte_start_spec(byte_start_spec(s)) == byte_start_spec(s),
{
    let s1 = byte_start_spec(s);
    assert forall|i: int| 0 <= i < 99 implies #[trigger] ctx_hash(s1.hist, s1.follow, i) == ctx_hash(s.hist, s.follow, i) by {
    }
    assert(byte_start_spec(s1).ctxhash =~= s1.ctxhash);
    assert(above_of(s1.hist) == above_of(s.hist));
    assert(follow_entry(s1.follow, s1.hist, 1) == follow_entry(s.follow, s.hist, 1));
    assert(byte_start_spec(s1).hist == s1.hist);
}

/// The state after observing `bit`.
pub open spec fn cm_update(s: CmView, bit: i32) -> CmView {
    let s1 = learn_bit(s, bit);
    if s1.hist.bitcount == 8 {
        byte_start_spec(end_byte(s1))
    } else {
        s1
    }
}

/// Predicting leaves the history alone; learning a bit advances the bit
/// count, and the eighth bit appends the byte.
pub proof fn lemma_update_counters(s: CmView, bit: i32)
    requires
        0 <= s.hist.bitcount <= 7,
        s.hist.bitcount < 7 || s.hist.pos < 0xffff_ffff,
    ensures
        cm_update(cm_predict_state(s), bit).hist.bitcount == (if s.hist.bitcount == 7 { 0 } else { s.hist.bitcount + 1 }),
        cm_update(cm_predict_state(s), bit).hist.pos == (if s.hist.bitcount == 7 { s.hist.pos + 1 } else { s.hist.pos as int }),
{
}

// ---------------------------------------------------------------------------
// Component loops
// ---------------------------------------------------------------------------

pub open spec fn slots_view(v: Seq<Slot>) -> Seq<SlotView> {
    Seq::new(v.len(), |i: int| v[i]@)
}

pub open spec fn mixers_view(v: Seq<Mixer>) -> Seq<MixerView> {
    Seq::new(v.len(), |i: int| v[i]@)
}

pub open spec fn matches_view(v: Seq<MatchModel>) -> Seq<MatchView> {
    Seq::new(v.len(), |i: int| v[i]@)
}

pub open spec fn apms_view(v: Seq<Apm>) -> Seq<ApmView> {
    Seq::new(v.len(), |i: int| v[i]@)
}

pub open spec fn slots_ok(v: Seq<Slot>) -> bool {
    v.len() == 99 && forall|i: int| 0 <= i < 99 ==> #[trigger] v[i].wf()
}

pub open spec fn mixers_ok(v: Seq<Mixer>, count: int, n: int) -> bool {
    &&& v.len() == count
    &&& forall|i: int| 0 <= i < count ==> #[trigger] v[i].wf()
    &&& forall|i: int| 0 <= i < count ==> (#[trigger] v[i]@).n == n
}

pub open spec fn matches_ok(v: Seq<MatchModel>, pos: u32) -> bool {
    &&& v.len() == 6
    &&& forall|i: int| 0 <= i < 6 ==> #[trigger] v[i].wf()
    &&& forall|i: int| 0 <= i < 6 ==> mm_ptr_ok(#[trigger] v[i]@, pos)
}

pub open spec fn apms_ok(v: Seq<Apm>) -> bool {
    &&& v.len() == 4
    &&& forall|i: int| 0 <= i < 4 ==> #[trigger] v[i].wf()
    &&& forall|i: int| 0 <= i < 4 ==> #[trigger] v[i].contexts() == apm_rows(i)
}

fn lookup_all(slots: &mut Vec<Slot>, ctxhash: &Vec<u32>, c0: i32, bc: i32, stretch: &Vec<i32>, mix_in: &mut Vec<i32>)
    requires
        slots_ok(old(slots)@),
        ctxhash@.len() == 99,
        0 <= bc <= 7,
        stretch@ == stretch12_table(),
        inputs_ok(old(mix_in)@, 205),
    ensures
        slots_ok(final(slots)@),
        slots_view(final(slots)@) == Seq::new(99, |i: int| slot_lookup(slots_view(old(slots)@)[i], ctxhash@[i], c0, bc)),
        inputs_ok(final(mix_in)@, 205),
        final(mix_in)@ == Seq::new(205, |j: int| if j < 99 {
            slot_counter_input(slots_view(final(slots)@)[j])
        } else if j < 198 {
            slot_state_input(slots_view(final(slots)@)[j - 99])
        } else {
            old(mix_in)@[j]
        }),
{
    let ghost s0 = slots_view(slots@);
    let mut i: usize = 0;
    while i < NCTX
        invariant
            i <= 99,
            s0 == slots_view(old(slots)@),
            slots_ok(slots@),
            ctxhash@.len() == 99,
            0 <= bc <= 7,
            stretch@ == stretch12_table(),
            inputs_ok(mix_in@, 205),
            forall|j: int| 0 <= j < 99 ==> #[trigger] slots@[j]@ == if j < i {
                slot_lookup(s0[j], ctxhash@[j], c0, bc)
            } else {
                s0[j]
            },
            forall|j: int| 0 <= j < 205 ==> #[trigger] mix_in@[j] == if j < i {
                slot_counter_input(slots@[j]@)
            } else if 99 <= j < 99 + i {
                slot_state_input(slots@[j - 99]@)
            } else {
                old(mix_in)@[j]
            },
        decreases 99 - i,
    {
        let h = ctxhash[i];
        let r = slots[i].lookup(h, c0, bc, stretch);
        mix_in.set(i, r.0);
        mix_in.set(99 + i, r.1);
        i += 1;
    }
    assert(slots_view(slots@) =~= Seq::new(99, |i: int| slot_lookup(s0[i], ctxhash@[i], c0, bc)));
    assert(mix_in@ =~= Seq::new(205, |j: int| if j < 99 {
        slot_counter_input(slots_view(slots@)[j])
    } else if j < 198 {
        slot_state_input(slots_view(slots@)[j - 99])
    } else {
        old(mix_in)@[j]
    }));
}

fn learn_all_slots(slots: &mut Vec<Slot>, bit: i32, rate: &Vec<i32>)
    requires
        slots_ok(old(slots)@),
        0 <= bit <= 1,
        rate@ == rate_table(),
    ensures
        slots_ok(final(slots)@),
        slots_view(final(slots)@) == Seq::new(99, |i: int| slot_learn(slots_view(old(slots)@)[i], bit)),
{
    let ghost s0 = slots_view(slots@);
    let mut i: usize = 0;
    while i < NCTX
        invariant
            i <= 99,
            s0 == slots_view(old(slots)@),
            slots_ok(slots@),
            0 <= bit <= 1,
            rate@ == rate_table(),
            forall|j: int| 0 <= j < 99 ==> #[trigger] slots@[j]@ == if j < i { slot_learn(s0[j], bit) } else { s0[j] },
        decreases 99 - i,
    {
        slots[i].update(bit, rate);
        i += 1;
    }
    assert(slots_view(slots@) =~= Seq::new(99, |i: int| slot_learn(s0[i], bit)));
}

fn learn_all_mixers(ms: &mut Vec<Mixer>, count: usize, n: usize, inputs: &Vec<i32>, bit: i32)
    requires
        mixers_ok(old(ms)@, count as int, n as int),
        inputs_ok(inputs@, n as int),
        0 <= bit <= 1,
    ensures
        mixers_ok(final(ms)@, count as int, n as int),
        mixers_view(final(ms)@) == Seq::new(count as nat, |k: int| mixer_learn(mixers_view(old(ms)@)[k], inputs@, bit)),
{
    let ghost s0 = mixers_view(ms@);
    let mut k: usize = 0;
    while k < count
        invariant
            k <= count,
            s0 == mixers_view(old(ms)@),
            mixers_ok(ms@, count as int, n as int),
            inputs_ok(inputs@, n as int),
            0 <= bit <= 1,
            forall|j: int| 0 <= j < count ==> #[trigger] ms@[j]@ == if j < k { mixer_learn(s0[j], inputs@, bit) } else { s0[j] },
        decreases count - k,
    {
        ms[k].update(bit, inputs.as_slice());
        k += 1;
    }
    assert(mixers_view(ms@) =~= Seq::new(count as nat, |k: int| mixer_learn(s0[k], inputs@, bit)));
}

fn predict_all_matches(mm: &mut Vec<MatchModel>, c0: i32, bc: i32, stretch: &Vec<i32>, mix_in: &mut Vec<i32>, Ghost(pos): Ghost<u32>)
    requires
        matches_ok(old(mm)@, pos),
        0 <= bc <= 7,
        1 <= c0 <= 255,
        stretch@ == stretch12_table(),
        inputs_ok(old(mix_in)@, 205),
    ensures
        matches_ok(final(mm)@, pos),
        matches_view(final(mm)@) == Seq::new(6, |k: int| mm_predict(matches_view(old(mm)@)[k], c0, bc)),
        inputs_ok(final(mix_in)@, 205),
        final(mix_in)@ == Seq::new(205, |j: int| if 198 <= j < 204 {
            mm_input(matches_view(old(mm)@)[j - 198], c0, bc)
        } else if j == 204 {
            0
        } else {
            old(mix_in)@[j]
        }),
{
    let ghost s0 = matches_view(mm@);
    let mut k: usize = 0;
    while k < 6
        invariant
            k <= 6,
            s0 == matches_view(old(mm)@),
            matches_ok(mm@, pos),
            0 <= bc <= 7,
            1 <= c0 <= 255,
            stretch@ == stretch12_table(),
            inputs_ok(mix_in@, 205),
            forall|j: int| 0 <= j < 6 ==> #[trigger] mm@[j]@ == if j < k { mm_predict(s0[j], c0, bc) } else { s0[j] },
            forall|j: int| 0 <= j < 205 ==> #[trigger] mix_in@[j] == if 198 <= j < 198 + k {
                mm_input(s0[j - 198], c0, bc)
            } else {
                old(mix_in)@[j]
            },
        decreases 6 - k,
    {
        let r = mm[k].predict(c0, bc, stretch.as_slice());
        mix_in.set(198 + k, r);
        k += 1;
    }
    mix_in.set(204, 0);
    assert(matches_view(mm@) =~= Seq::new(6, |k: int| mm_predict(s0[k], c0, bc)));
    assert(mix_in@ =~= Seq::new(205, |j: int| if 198 <= j < 204 {
        mm_input(s0[j - 198], c0, bc)
    } else if j == 204 {
        0
    } else {
        old(mix_in)@[j]
    }));
}

fn learn_all_matches(mm: &mut Vec<MatchModel>, bit: i32, Ghost(pos): Ghost<u32>)
    requires
        matches_ok(old(mm)@, pos),
        0 <= bit <= 1,
    ensures
        matches_ok(final(mm)@, pos),
        matches_view(final(mm)@) == Seq::new(6, |k: int| mm_learn(matches_view(old(mm)@)[k], bit)),
{
    let ghost s0 = matches_view(mm@);
    let mut k: usize = 0;
    while k < 6
        invariant
            k <= 6,
            s0 == matches_view(old(mm)@),
            matches_ok(mm@, pos),
            0 <= bit <= 1,
            forall|j: int| 0 <= j < 6 ==> #[trigger] mm@[j]@ == if j < k { mm_learn(s0[j], bit) } else { s0[j] },
        decreases 6 - k,
    {
        mm[k].learn(bit);
        k += 1;
    }
    assert(matches_view(mm@) =~= Seq::new(6, |k: int| mm_learn(s0[k], bit)));
}

fn learn_all_apms(apm: &mut Vec<Apm>, bit: i32)
    requires
        apms_ok(old(apm)@),
        0 <= bit <= 1,
    ensures
        apms_ok(final(apm)@),
        apms_view(final(apm)@) == Seq::new(4, |k: int| apm_learn(apms_view(old(apm)@)[k], bit)),
{
    let ghost s0 = apms_view(apm@);
    let mut k: usize = 0;
    while k < 4
        invariant
            k <= 4,
            s0 == apms_view(old(apm)@),
            apms_ok(apm@),
            0 <= bit <= 1,
            forall|j: int| 0 <= j < 4 ==> #[trigger] apm@[j]@ == if j < k { apm_learn(s0[j], bit) } else { s0[j] },
        decreases 4 - k,
    {
        apm[k].update(bit);
        k += 1;
    }
    assert(apms_view(apm@) =~= Seq::new(4, |k: int| apm_learn(s0[k], bit)));
}

fn mix_layer1(l1: &mut Vec<Mixer>, mix_in: &Vec<i32>, squash: &Vec<i32>, h: &History, m1: i32, m2: i32, m3: i32, m4: i32, l2_in: &mut Vec<i32>)
    requires
        mixers_ok(old(l1)@, 27, 205),
        inputs_ok(mix_in@, 205),
        squash@ == squash12_table(),
        hist_ok(h@),
        0 <= m1 <= 0x3ff,
        0 <= m2 <= 0x3ff,
        0 <= m3 <= 0x3ff,
        0 <= m4 <= 0x3ff,
        old(l2_in)@.len() == 27,
    ensures
        mixers_ok(final(l1)@, 27, 205),
        mixers_view(final(l1)@) == Seq::new(27, |k: int| mixer_mix(mixers_view(old(l1)@)[k], mix_in@, l1_ctx(h@, m1, m2, m3, m4, k))),
        final(l2_in)@ == Seq::new(27, |k: int| mixer_logit(mixers_view(old(l1)@)[k], mix_in@, l1_ctx(h@, m1, m2, m3, m4, k))),
        inputs_ok(final(l2_in)@, 27),
{
    let ghost s0 = mixers_view(l1@);
    let mut k: usize = 0;
    while k < NL1
        invariant
            k <= 27,
            s0 == mixers_view(old(l1)@),
            mixers_ok(l1@, 27, 205),
            inputs_ok(mix_in@, 205),
            squash@ == squash12_table(),
            hist_ok(h@),
            0 <= m1 <= 0x3ff,
            0 <= m2 <= 0x3ff,
            0 <= m3 <= 0x3ff,
            0 <= m4 <= 0x3ff,
            l2_in@.len() == 27,
            forall|j: int| 0 <= j < 27 ==> #[trigger] l1@[j]@ == if j < k {
                mixer_mix(s0[j], mix_in@, l1_ctx(h@, m1, m2, m3, m4, j))
            } else {
                s0[j]
            },
            forall|j: int| 0 <= j < k ==> #[trigger] l2_in@[j] == mixer_logit(s0[j], mix_in@, l1_ctx(h@, m1, m2, m3, m4, j)),
            forall|j: int| 0 <= j < k ==> -2047 <= #[trigger] l2_in@[j] <= 2047,
        decreases 27 - k,
    {
        let c = l1_ctx_exec(h, m1, m2, m3, m4, k);
        proof {
            l1@[k as int].lemma_fits(mix_in@, c);
        }
        let d = l1[k].mix(mix_in.as_slice(), squash.as_slice(), c);
        l2_in.set(k, d);
        k += 1;
    }
    assert(mixers_view(l1@) =~= Seq::new(27, |k: int| mixer_mix(s0[k], mix_in@, l1_ctx(h@, m1, m2, m3, m4, k))));
    assert(l2_in@ =~= Seq::new(27, |k: int| mixer_logit(s0[k], mix_in@, l1_ctx(h@, m1, m2, m3, m4, k))));
}

fn mix_layer2(l2: &mut Vec<Mixer>, l2_in: &Vec<i32>, squash: &Vec<i32>, h: &History, m1: i32, m2: i32, m3: i32, m4: i32, Ghost(s): Ghost<CmView>) -> (sum: i32)
    requires
        mixers_ok(old(l2)@, 10, 27),
        inputs_ok(l2_in@, 27),
        squash@ == squash12_table(),
        hist_ok(h@),
        0 <= m1 <= 0x3ff,
        0 <= m2 <= 0x3ff,
        0 <= m3 <= 0x3ff,
        0 <= m4 <= 0x3ff,
        s.l2 == mixers_view(old(l2)@),
        s.l2_in == l2_in@,
        s.hist == h@,
        s.mm.len() == 6,
        s.mm[0].len == m1,
        s.mm[1].len == m2,
        s.mm[2].len == m3,
        s.mm[3].len == m4,
    ensures
        mixers_ok(final(l2)@, 10, 27),
        mixers_view(final(l2)@) == Seq::new(10, |k: int| mixer_mix(s.l2[k], s.l2_in, l2_sel(s, k))),
        sum == l2_sum(s, 10),
        -20470 <= sum <= 20470,
{
    let mut sum: i32 = 0;
    let mut k: usize = 0;
    while k < NL2
        invariant
            k <= 10,
            s.l2 == mixers_view(old(l2)@),
            s.l2_in == l2_in@,
            s.hist == h@,
            s.mm.len() == 6,
            s.mm[0].len == m1,
            s.mm[1].len == m2,
            s.mm[2].len == m3,
            s.mm[3].len == m4,
            mixers_ok(l2@, 10, 27),
            inputs_ok(l2_in@, 27),
            squash@ == squash12_table(),
            hist_ok(h@),
            0 <= m1 <= 0x3ff,
            0 <= m2 <= 0x3ff,
            0 <= m3 <= 0x3ff,
            0 <= m4 <= 0x3ff,
            forall|j: int| 0 <= j < 10 ==> #[trigger] l2@[j]@ == if j < k {
                mixer_mix(s.l2[j], s.l2_in, l2_sel(s, j))
            } else {
                s.l2[j]
            },
            sum == l2_sum(s, k as int),
            -2047 * k <= sum <= 2047 * k,
        decreases 10 - k,
    {
        let c = l2_ctx_exec(h, m1, m2, m3, m4, k);
        proof {
            l2@[k as int].lemma_fits(l2_in@, c);
        }
        let d = l2[k].mix(l2_in.as_slice(), squash.as_slice(), c);
        sum = sum + d;
        k += 1;
    }
    assert(mixers_view(l2@) =~= Seq::new(10, |k: int| mixer_mix(s.l2[k], s.l2_in, l2_sel(s, k))));
    sum
}

fn matches_on_byte(mm: &mut Vec<MatchModel>, byte: u8, pos: u32)
    requires
        matches_ok(old(mm)@, pos),
    ensures
        matches_view(final(mm)@) == Seq::new(6, |k: int| mm_on_byte(matches_view(old(mm)@)[k], byte)),
        final(mm)@.len() == 6,
        forall|j: int| 0 <= j < 6 ==> #[trigger] final(mm)@[j].wf(),
        forall|j: int| 0 <= j < 6 ==> (#[trigger] final(mm)@[j]@).ptr <= pos,
{
    let ghost s0 = matches_view(mm@);
    let mut k: usize = 0;
    while k < 6
        invariant
            k <= 6,
            s0 == matches_view(old(mm)@),
            mm@.len() == 6,
            forall|j: int| 0 <= j < 6 ==> #[trigger] mm@[j].wf(),
            forall|j: int| 0 <= j < 6 ==> mm_ptr_ok(#[trigger] s0[j], pos),
            forall|j: int| 0 <= j < 6 ==> #[trigger] mm@[j]@ == if j < k { mm_on_byte(s0[j], byte) } else { s0[j] },
            forall|j: int| 0 <= j < k ==> (#[trigger] mm@[j]@).ptr <= pos,
        decreases 6 - k,
    {
        mm[k].on_byte(byte, pos);
        k += 1;
    }
    assert(matches_view(mm@) =~= Seq::new(6, |k: int| mm_on_byte(s0[k], byte)));
}

fn matches_find(mm: &mut Vec<MatchModel>, c4: u32, buf: &Vec<u8>, mask: u32, pos: u32)
    requires
        matches_ok(old(mm)@, pos),
        buf_ok(buf@, mask),
    ensures
        matches_ok(final(mm)@, pos),
        matches_view(final(mm)@) == Seq::new(6, |k: int| mm_set_predicted(mm_find(matches_view(old(mm)@)[k], c4, buf@, mask, pos), buf@, mask, pos)),
{
    let ghost s0 = matches_view(mm@);
    let mut k: usize = 0;
    while k < 6
        invariant
            k <= 6,
            s0 == matches_view(old(mm)@),
            matches_ok(mm@, pos),
            buf_ok(buf@, mask),
            forall|j: int| 0 <= j < 6 ==> #[trigger] mm@[j]@ == if j < k {
                mm_set_predicted(mm_find(s0[j], c4, buf@, mask, pos), buf@, mask, pos)
            } else {
                s0[j]
            },
        decreases 6 - k,
    {
        mm[k].find(c4, buf.as_slice(), mask, pos);
        mm[k].set_predicted(buf.as_slice(), mask, pos);
        k += 1;
    }
    assert(matches_view(mm@) =~= Seq::new(6, |k: int| mm_set_predicted(mm_find(s0[k], c4, buf@, mask, pos), buf@, mask, pos)));
}

fn build_rates() -> (r: Vec<i32>)
    ensures
        r@ == rate_table(),
{
    let mut r: Vec<i32> = Vec::new();
    let mut n: usize = 0;
    while n < 256
        invariant
            n <= 256,
            r@.len() == n,
            forall|j: int| 0 <= j < n ==> #[trigger] r@[j] == rate_of(j),
        decreases 256 - n,
    {
        let mut v: i32 = 4096 / (n as i32 + 2);
        if v < 40 {
            v = 40;
        }
        r.push(v);
        n += 1;
    }
    assert(r@ =~= rate_table());
    r
}

fn l1_rows_of(k: usize) -> (r: usize)
    ensures
        r == l1_rows(k as int),
{
    if k == 0 {
        16384
    } else if k == 3 || k == 4 || k == 7 || k == 8 {
        8192
    } else if k == 6 || k == 9 || k == 10 || k == 14 {
        4096
    } else if k == 13 {
        1024
    } else if k == 11 {
        512
    } else if k == 5 || k == 17 || k == 20 || k == 24 || k == 25 || k == 26 {
        64
    } else if k == 18 || k == 21 || k == 22 {
        32
    } else if k == 19 {
        16
    } else {
        256
    }
}

fn new_slots(n: usize) -> (v: Vec<Slot>)
    ensures
        slots_ok(v@),
        slots_view(v@) == Seq::new(99, |i: int| slot_init(ctx_bits(i, n as nat), ctx_assoc(i))),
{
    let mut v: Vec<Slot> = Vec::new();
    let grow: u32 = if n >= 262_144 { 1 } else { 0 };
    let mut i: usize = 0;
    while i < NCTX
        invariant
            i <= 99,
            grow == (if n >= 262_144 { 1u32 } else { 0u32 }),
            v@.len() == i,
            forall|j: int| 0 <= j < i ==> #[trigger] v@[j].wf(),
            forall|j: int| 0 <= j < i ==> #[trigger] v@[j]@ == slot_init(ctx_bits(j, n as nat), ctx_assoc(j)),
        decreases 99 - i,
    {
        let assoc = !(i == 0 || i == 1 || i == 2 || i == 8 || i == 93);
        let tb: u32 = if i == 0 { 9 } else if assoc { 22 + grow } else { 23 };
        v.push(Slot::new(tb, assoc));
        i += 1;
    }
    assert(slots_view(v@) =~= Seq::new(99, |i: int| slot_init(ctx_bits(i, n as nat), ctx_assoc(i))));
    v
}

fn new_mixers(count: usize, n: usize, lr: i32, layer1: bool) -> (v: Vec<Mixer>)
    requires
        1 <= n <= 256,
        1 <= lr <= 16,
        layer1 ==> count <= 27,
    ensures
        mixers_ok(v@, count as int, n as int),
        mixers_view(v@) == Seq::new(count as nat, |k: int| mixer_init(n, if layer1 { l1_rows(k) } else { l2_rows(k) }, lr)),
{
    let mut v: Vec<Mixer> = Vec::new();
    let mut k: usize = 0;
    while k < count
        invariant
            k <= count,
            1 <= n <= 256,
            1 <= lr <= 16,
            layer1 ==> count <= 27,
            v@.len() == k,
            forall|j: int| 0 <= j < k ==> #[trigger] v@[j].wf(),
            forall|j: int| 0 <= j < k ==> (#[trigger] v@[j]@) == mixer_init(n, if layer1 { l1_rows(j) } else { l2_rows(j) }, lr),
        decreases count - k,
    {
        let rows: usize = if layer1 { l1_rows_of(k) } else if k == 8 { 512 } else { 256 };
        v.push(Mixer::new(n, rows, lr));
        k += 1;
    }
    assert(mixers_view(v@) =~= Seq::new(count as nat, |k: int| mixer_init(n, if layer1 { l1_rows(k) } else { l2_rows(k) }, lr)));
    v
}

fn new_matches() -> (v: Vec<MatchModel>)
    ensures
        matches_ok(v@, 0),
        matches_view(v@) == Seq::new(6, |k: int| mm_fresh(k)),
{
    let mut v: Vec<MatchModel> = Vec::new();
    v.push(MatchModel::new(6, 23, 32, 6, 0, 80));
    v.push(MatchModel::new(8, 23, 32, 6, 8, 80));
    v.push(MatchModel::new(10, 22, 84, 5, 10, 184));
    v.push(MatchModel::new(12, 23, 72, 1, 12, 160));
    v.push(MatchModel::new(14, 23, 72, 5, 14, 160));
    v.push(MatchModel::new(2, 23, 32, 5, 2, 80));
    assert(matches_view(v@) =~= Seq::new(6, |k: int| mm_fresh(k)));
    v
}

fn new_apms(squash: &Vec<i32>) -> (v: Vec<Apm>)
    requires
        squash@ == squash12_table(),
    ensures
        apms_ok(v@),
        apms_view(v@) == Seq::new(4, |k: int| apm_init(apm_rows(k) as int)),
{
    let mut v: Vec<Apm> = Vec::new();
    v.push(Apm::new(1024, squash.as_slice()));
    v.push(Apm::new(16384, squash.as_slice()));
    v.push(Apm::new(1024, squash.as_slice()));
    v.push(Apm::new(1024, squash.as_slice()));
    assert(apms_view(v@) =~= Seq::new(4, |k: int| apm_init(apm_rows(k) as int)));
    v
}

fn history_size(n: usize) -> (b: u32)
    requires
        n <= usize::MAX - 16,
    ensures
        b as nat == buf_size(n as nat),
        0x1_0000 <= b < 0x1000_0000,
{
    let mut b: u32 = 1;
    while (b as usize) < n + 16 && b < 0x800_0000
        invariant
            1 <= b < 0x1000_0000,
            n <= usize::MAX - 16,
            buf_grow(b as nat, n as nat) == buf_grow(1, n as nat),
        decreases 0x1000_0000 - b,
    {
        b = b * 2;
    }
    if b < 0x1_0000 {
        b = 0x1_0000;
    }
    b
}

fn apm_stage(a: &mut Apm, stretch16: &Vec<i32>, ctx: usize, p: i32, three: bool) -> (r: i32)
    requires
        old(a).wf(),
        ctx < old(a).contexts(),
        1 <= p <= 65534,
        stretch16@ == stretch16_table(),
    ensures
        final(a).wf(),
        final(a).contexts() == old(a).contexts(),
        final(a)@ == apm_apply(old(a)@, ctx as int, p),
        r == blend(p, apm_value(old(a)@, ctx as int, p), three),
        1 <= r <= 65534,
{
    let v = a.apply16(stretch16.as_slice(), ctx, p);
    let mut r: i32 = if three { (3 * p + v) >> 2u32 } else { (p + v) >> 1u32 };
    if r < 1 {
        r = 1;
    }
    if r > 65534 {
        r = 65534;
    }
    r
}

fn run_apms(apm: &mut Vec<Apm>, stretch16: &Vec<i32>, squash16: &Vec<i32>, sum: i32, x0: usize, x1: usize, x2: usize, x3: usize, Ghost(s): Ghost<CmView>) -> (p: i32)
    requires
        apms_ok(old(apm)@),
        apms_view(old(apm)@) == s.apm,
        stretch16@ == stretch16_table(),
        squash16@ == squash16_table(),
        sum == l2_sum(s, 10),
        -20470 <= sum <= 20470,
        x0 == apm_ctx(s, 0),
        x1 == apm_ctx(s, 1),
        x2 == apm_ctx(s, 2),
        x3 == apm_ctx(s, 3),
        x0 < 1024,
        x1 < 16384,
        x2 < 1024,
        x3 < 1024,
    ensures
        apms_ok(final(apm)@),
        apms_view(final(apm)@) == Seq::new(4, |k: int| apm_apply(s.apm[k], apm_ctx(s, k) as int, apm_chain(s, k))),
        p == apm_chain(s, 4),
        1 <= p <= 65534,
{
    proof {
        lemma_squash_tables_range();
    }
    let d = sum / 10;
    assert(d == tdiv(sum as int, 10));
    let mut p = squash16_d(squash16.as_slice(), d);
    if p < 1 {
        p = 1;
    }
    if p > 65534 {
        p = 65534;
    }
    assert(p == apm_chain(s, 0));
    let p1 = apm_stage(&mut apm[0], stretch16, x0, p, false);
    assert(p1 == apm_chain(s, 1));
    let p2 = apm_stage(&mut apm[1], stretch16, x1, p1, false);
    assert(p2 == apm_chain(s, 2));
    let p3 = apm_stage(&mut apm[2], stretch16, x2, p2, false);
    assert(p3 == apm_chain(s, 3));
    let p4 = apm_stage(&mut apm[3], stretch16, x3, p3, true);
    assert(p4 == apm_chain(s, 4));
    assert(apms_view(apm@) =~= Seq::new(4, |k: int| apm_apply(s.apm[k], apm_ctx(s, k) as int, apm_chain(s, k))));
    p4
}

/// The end-of-byte work reads the history only through what the partial
/// byte does not touch.
proof fn lemma_partial_byte_ignored(h: HistView, hl: HistView, f: Seq<Seq<u32>>, byte: u8)
    requires
        hl == (HistView { c0: hl.c0, bitcount: hl.bitcount, ..h }),
    ensures
        hist_push(hl, byte).c4 == hist_push(h, byte).c4,
        hist_push(hl, byte).buf == hist_push(h, byte).buf,
        hist_push(hl, byte).bufmask == hist_push(h, byte).bufmask,
        hist_push(hl, byte).pos == hist_push(h, byte).pos,
        hist_reset(hist_push(hl, byte)) == hist_reset(hist_push(h, byte)),
        follow_record(f, hl, byte) == follow_record(f, h, byte),
{
    assert forall|t: int| 0 <= t < 15 implies #[trigger] follow_index(hl, t) == follow_index(h, t) && follow_active(hl, t) == follow_active(h, t) by {
        assert(back(hl, 2) == back(h, 2));
        assert(back(hl, 3) == back(h, 3));
        assert(back(hl, 4) == back(h, 4));
        assert(back(hl, 5) == back(h, 5));
        assert(back(hl, 6) == back(h, 6));
    }
    assert(follow_record(f, hl, byte) =~= follow_record(f, h, byte));
}

// ---------------------------------------------------------------------------
// The predictor
// ---------------------------------------------------------------------------

/// The context-mixing predictor.
pub struct Cm {
    stretch: Vec<i32>,
    squash: Vec<i32>,
    stretch16: Vec<i32>,
    squash16: Vec<i32>,
    rate_tab: Vec<i32>,
    slots: Vec<Slot>,
    ctxhash: Vec<u32>,
    mix_in: Vec<i32>,
    l1: Vec<Mixer>,
    l2: Vec<Mixer>,
    l2_in: Vec<i32>,
    mm: Vec<MatchModel>,
    apm: Vec<Apm>,
    hist: History,
    follow: Follow,
}

impl Cm {
    pub closed spec fn view(&self) -> CmView {
        CmView {
            slots: slots_view(self.slots@),
            ctxhash: self.ctxhash@,
            mix_in: self.mix_in@,
            l1: mixers_view(self.l1@),
            l2: mixers_view(self.l2@),
            l2_in: self.l2_in@,
            mm: matches_view(self.mm@),
            apm: apms_view(self.apm@),
            hist: self.hist@,
            follow: self.follow@,
        }
    }

    /// The predictor's invariant.
    pub closed spec fn wf(&self) -> bool {
        &&& self.stretch@ == stretch12_table()
        &&& self.squash@ == squash12_table()
        &&& self.stretch16@ == stretch16_table()
        &&& self.squash16@ == squash16_table()
        &&& self.rate_tab@ == rate_table()
        &&& slots_ok(self.slots@)
        &&& self.ctxhash@.len() == 99
        &&& inputs_ok(self.mix_in@, 205)
        &&& mixers_ok(self.l1@, 27, 205)
        &&& mixers_ok(self.l2@, 10, 27)
        &&& inputs_ok(self.l2_in@, 27)
        &&& matches_ok(self.mm@, self.hist.pos)
        &&& apms_ok(self.apm@)
        &&& hist_ok(self.hist@)
        &&& follow_ok(self.follow@)
    }

    /// A predictor sized for an input of `expected_len` bytes. Call
    /// `byte_start` before the first prediction.
    pub fn new(expected_len: usize) -> (c: Self)
        requires
            expected_len <= usize::MAX - 16,
        ensures
            c.wf(),
            c@ == cm_init(expected_len as nat),
    {
        let (stretch, squash) = build();
        let (stretch16, squash16) = build16();
        let rate_tab = build_rates();
        let slots = new_slots(expected_len);
        let l1 = new_mixers(NL1, NINPUT, 8, true);
        let l2 = new_mixers(NL2, NL1, 10, false);
        let mm = new_matches();
        let apm = new_apms(&squash);
        let size = history_size(expected_len);
        let hist = History::new(size as usize, size - 1);
        let follow = Follow::new();
        let c = Cm {
            stretch,
            squash,
            stretch16,
            squash16,
            rate_tab,
            slots,
            ctxhash: vec![0u32; NCTX],
            mix_in: vec![0i32; NINPUT],
            l1,
            l2,
            l2_in: vec![0i32; NL1],
            mm,
            apm,
            hist,
            follow,
        };
        assert(c@.ctxhash =~= Seq::new(99, |i: int| 0u32));
        assert(c@.mix_in =~= Seq::new(205, |i: int| 0i32));
        assert(c@.l2_in =~= Seq::new(27, |i: int| 0i32));
        assert(c@.l1 =~= cm_init(expected_len as nat).l1);
        assert(c@.l2 =~= cm_init(expected_len as nat).l2);
        c
    }

    /// Recompute the context hashes, the byte above and the indirect
    /// prediction for the byte about to be coded.
    pub fn byte_start(&mut self)
        requires
            old(self).wf(),
        ensures
            final(self).wf(),
            final(self)@ == byte_start_spec(old(self)@),
    {
        let ghost s0 = self@;
        let mut i: usize = 0;
        while i < NCTX
            invariant
                i <= 99,
                s0 == old(self)@,
                self.wf(),
                self@ == (CmView { ctxhash: self.ctxhash@, ..s0 }),
                forall|j: int| 0 <= j < i ==> #[trigger] self.ctxhash@[j] == ctx_hash(s0.hist, s0.follow, j),
            decreases 99 - i,
        {
            let h = context_hash(&self.hist, &self.follow, i);
            self.ctxhash.set(i, h);
            i += 1;
        }
        assert(self.ctxhash@ =~= Seq::new(99, |i: int| ctx_hash(s0.hist, s0.follow, i)));
        let ab = above(&self.hist);
        let ip = self.follow.entry(&self.hist, 1) & 0xff;
        self.hist.above_byte = ab;
        self.hist.ind_pred = ip;
    }

    /// The 16-bit probability that the next bit is 1.
    pub fn predict(&mut self) -> (p: i32)
        requires
            old(self).wf(),
        ensures
            final(self).wf(),
            final(self)@ == cm_predict_state(old(self)@),
            p == cm_prediction(old(self)@),
            1 <= p <= 65534,
    {
        let ghost s0 = self@;
        let c0 = self.hist.c0;
        let bc = self.hist.bitcount;
        lookup_all(&mut self.slots, &self.ctxhash, c0, bc, &self.stretch, &mut self.mix_in);
        let ghost s1 = self@;
        assert(s1 == predict_contexts(s0));
        predict_all_matches(&mut self.mm, c0, bc, &self.stretch, &mut self.mix_in, Ghost(self.hist.pos));
        let ghost s2 = self@;
        assert(s2 == predict_matches(s1));
        let m1 = self.mm[0].match_length();
        let m2 = self.mm[1].match_length();
        let m3 = self.mm[2].match_length();
        let m4 = self.mm[3].match_length();
        mix_layer1(&mut self.l1, &self.mix_in, &self.squash, &self.hist, m1, m2, m3, m4, &mut self.l2_in);
        let ghost s3 = self@;
        assert(s2.mm[0].len == m1 && s2.mm[1].len == m2 && s2.mm[2].len == m3 && s2.mm[3].len == m4);
        assert(s3.l1 =~= predict_layer1(s2).l1);
        assert(s3.l2_in =~= predict_layer1(s2).l2_in);
        assert(s3 == predict_layer1(s2));
        let sum = mix_layer2(&mut self.l2, &self.l2_in, &self.squash, &self.hist, m1, m2, m3, m4, Ghost(s3));
        let c1 = self.hist.c1;
        let c4 = self.hist.c4;
        let x0 = ((c1 | (if m1 > 0 { 256i32 } else { 0i32 })) as usize) & 1023;
        let x1 = (c4 & 0x3fff) as usize;
        let x2 = (c0 as usize) | (if m1 > 0 { 256usize } else { 0usize }) | (if m3 > 0 { 512usize } else { 0usize });
        let x3 = ((m1 as usize) & 0xff) | (if m3 > 0 { 256usize } else { 0usize }) | (if m4 > 0 { 512usize } else { 0usize });
        proof {
            assert(x0 < 1024 && x1 < 16384 && x2 < 1024 && x3 < 1024) by (bit_vector)
                requires
                    x0 == (((c1 | (if m1 > 0 { 256i32 } else { 0i32 })) as usize) & 1023),
                    x1 == (c4 & 0x3fff) as usize,
                    0 <= c0 < 256,
                    x2 == (c0 as usize) | (if m1 > 0 { 256usize } else { 0usize }) | (if m3 > 0 { 512usize } else { 0usize }),
                    x3 == ((m1 as usize) & 0xff) | (if m3 > 0 { 256usize } else { 0usize }) | (if m4 > 0 { 512usize } else { 0usize });
        }
        let p = run_apms(&mut self.apm, &self.stretch16, &self.squash16, sum, x0, x1, x2, x3, Ghost(s3));
        assert(self@ == predict_final(s3));
        p
    }

    /// Learn the coded `bit` (the prediction it was coded with is not
    /// needed); after the eighth bit of a byte, advance to the next byte.
    pub fn update(&mut self, bit: i32, _p: i32)
        requires
            old(self).wf(),
            0 <= bit <= 1,
            old(self).room(),
        ensures
            final(self).wf(),
            final(self)@ == cm_update(old(self)@, bit),
    {
        let ghost s0 = self@;
        learn_all_apms(&mut self.apm, bit);
        learn_all_matches(&mut self.mm, bit, Ghost(self.hist.pos));
        learn_all_mixers(&mut self.l1, NL1, NINPUT, &self.mix_in, bit);
        learn_all_mixers(&mut self.l2, NL2, NL1, &self.l2_in, bit);
        learn_all_slots(&mut self.slots, bit, &self.rate_tab);
        let ghost s1 = learn_bit(s0, bit);
        assert(self@ == (CmView { hist: s0.hist, ..s1 }));
        if self.hist.bitcount == 7 {
            let c0n = (self.hist.c0 << 1u32) | bit;
            let byte = (c0n & 0xff) as u8;
            self.finish_byte(byte, Ghost(bit), Ghost(s1));
            self.byte_start();
        } else {
            self.hist.learn(bit);
            assert(self@ == s1);
        }
    }

    /// The end-of-byte work for the completed `byte`.
    fn finish_byte(&mut self, byte: u8, Ghost(bit): Ghost<i32>, Ghost(s1): Ghost<CmView>)
        requires
            old(self).wf(),
            old(self)@ == (CmView { hist: old(self)@.hist, ..s1 }),
            s1.hist == hist_learn(old(self)@.hist, bit),
            old(self)@.hist.bitcount == 7,
            old(self)@.hist.pos < 0xffff_ffff,
            byte == (s1.hist.c0 & 0xff) as u8,
        ensures
            final(self).wf(),
            final(self)@ == end_byte(s1),
    {
        let ghost h0 = self.hist@;
        let pos = self.hist.pos;
        matches_on_byte(&mut self.mm, byte, pos);
        self.follow.record(&self.hist, byte);
        self.hist.push(byte);
        let c4 = self.hist.c4;
        let mask = self.hist.bufmask;
        let npos = self.hist.pos;
        assert forall|j: int| 0 <= j < 6 implies mm_ptr_ok(#[trigger] self.mm@[j]@, npos) by {
            assert(self.mm@[j]@.ptr <= pos);
        }
        matches_find(&mut self.mm, c4, &self.hist.buf, mask, npos);
        self.hist.reset();
        proof {
            lemma_partial_byte_ignored(h0, s1.hist, s1.follow, byte);
        }
        assert(matches_view(self.mm@) =~= end_byte(s1).mm);
        assert(self@ == end_byte(s1));
    }

    /// A well-formed predictor is inside a byte: 0..=7 bits of it seen.
    pub proof fn lemma_bitcount(&self)
        requires
            self.wf(),
        ensures
            0 <= self@.hist.bitcount <= 7,
    {
    }

    /// Whether the next update may complete a byte without the 32-bit
    /// position counter overflowing.
    pub open spec fn room(&self) -> bool {
        self@.hist.bitcount < 7 || self@.hist.pos < 0xffff_ffff
    }
}

} // verus!

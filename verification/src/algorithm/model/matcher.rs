//! Match model: finds the most recent occurrence of the current context (by a
//! hash of the last `order` bytes) and predicts the bit that followed it,
//! with a confidence learned per match length.

use vstd::prelude::*;
use crate::algorithm::tables::{stretch12_table, lemma_stretch_tables_range};
use crate::algorithm::model::hashing::{wadd, wmul};

verus! {

/// The history byte at position `p` of the circular buffer.
pub open spec fn buf_byte(buf: Seq<u8>, mask: u32, p: u32) -> u8 {
    buf[(p & mask) as int]
}

/// The circular buffer's mask addresses it.
pub open spec fn buf_ok(buf: Seq<u8>, mask: u32) -> bool {
    buf.len() == mask as int + 1
}

/// Read the history byte at position `p`.
pub fn byte_at(buf: &[u8], mask: u32, p: u32) -> (b: u8)
    requires
        buf_ok(buf@, mask),
    ensures
        b == buf_byte(buf@, mask, p),
{
    proof {
        lemma_mask_le(p, mask);
    }
    buf[(p & mask) as usize]
}

/// A masked value never exceeds its mask.
pub proof fn lemma_mask_le(p: u32, m: u32)
    ensures
        p & m <= m,
{
    assert(p & m <= m) by (bit_vector);
}

/// A masked 64-bit value never exceeds its mask.
pub proof fn lemma_mask_le64(p: u64, m: u64)
    ensures
        p & m <= m,
{
    assert(p & m <= m) by (bit_vector);
}

/// Multiplier for the byte `j` positions back (j in 5..=14).
pub open spec fn mm_mult(j: int) -> u32 {
    if j == 5 {
        0x85eb_ca6b
    } else if j == 6 {
        0xc2b2_ae35
    } else if j == 7 {
        0x27d4_eb2f
    } else if j == 8 {
        0x1656_67b1
    } else if j == 9 {
        0xff51_afd7
    } else if j == 10 {
        0xc4ce_b9fe
    } else if j == 11 {
        0x52dc_e729
    } else if j == 12 {
        0x9e37_79b9
    } else if j == 13 {
        0x7f4a_7c15
    } else {
        0x94d0_49bb
    }
}

fn mult(j: u32) -> (m: u32)
    ensures
        m == mm_mult(j as int),
{
    if j == 5 {
        0x85eb_ca6b
    } else if j == 6 {
        0xc2b2_ae35
    } else if j == 7 {
        0x27d4_eb2f
    } else if j == 8 {
        0x1656_67b1
    } else if j == 9 {
        0xff51_afd7
    } else if j == 10 {
        0xc4ce_b9fe
    } else if j == 11 {
        0x52dc_e729
    } else if j == 12 {
        0x9e37_79b9
    } else if j == 13 {
        0x7f4a_7c15
    } else {
        0x94d0_49bb
    }
}

/// Hash of the last four bytes `c4` and the bytes 5..=j back.
pub open spec fn mm_fold(c4: u32, buf: Seq<u8>, mask: u32, pos: u32, j: int) -> u32
    decreases j,
{
    if j < 5 {
        wmul(c4, 2654435761)
    } else {
        wadd(mm_fold(c4, buf, mask, pos, j - 1), wmul(buf_byte(buf, mask, (pos - j) as u32) as u32, mm_mult(j)))
    }
}

/// The abstract state of a match model (its last six fields are fixed
/// parameters).
pub struct MatchView {
    pub tab: Seq<u32>,
    pub ptr: u32,
    pub len: i32,
    pub predicted: i32,
    pub sm: Seq<u16>,
    pub used: bool,
    pub idx: usize,
    /// Context length hashed to find candidates.
    pub order: u32,
    /// log2 of the candidate table size.
    pub bits: u32,
    /// Match lengths are capped here when selecting a confidence.
    pub cap: i32,
    /// Confidence adaptation shift.
    pub shift: u32,
    /// Shortest verified match kept; 0 keeps every candidate (length >= 1).
    pub min_len: i32,
}

/// The candidate-table index for the current context.
pub open spec fn mm_hash(m: MatchView, c4: u32, buf: Seq<u8>, mask: u32, pos: u32) -> u32 {
    if m.order == 2 {
        wmul(c4 & 0xffff, 2654435761) >> ((32 - m.bits) as u32)
    } else {
        mm_fold(c4, buf, mask, pos, m.order as int) >> ((32 - m.bits) as u32)
    }
}

/// Length of the common history ending just before `cand` and just before
/// `pos`, extended from `l` (capped at 1023).
pub open spec fn match_len(buf: Seq<u8>, mask: u32, cand: u32, pos: u32, l: i32) -> i32
    decreases 0x3ff - l,
{
    if l < 0x3ff && cand > l && pos > l + 1 && l >= 0
        && buf_byte(buf, mask, (cand - 1 - l) as u32) == buf_byte(buf, mask, (pos - 1 - l) as u32) {
        match_len(buf, mask, cand, pos, (l + 1) as i32)
    } else {
        l
    }
}

/// Whether the partial byte `c0` agrees with the predicted byte so far.
pub open spec fn mm_hit(m: MatchView, c0: i32, bitcount: i32) -> bool {
    m.len > 0 && m.predicted >= 0 && c0 - (1i32 << (bitcount as u32)) == (m.predicted >> ((8 - bitcount) as u32))
}

/// The confidence slot for the current bit.
pub open spec fn mm_slot(m: MatchView, bitcount: i32) -> usize {
    let e = (m.predicted >> ((7 - bitcount) as u32)) & 1;
    let li = if m.len > m.cap { m.cap } else { m.len };
    ((li << 1i32) | e) as usize
}

/// The state after predicting: a contradicted match is dropped; a live one
/// selects its confidence slot.
pub open spec fn mm_predict(m: MatchView, c0: i32, bitcount: i32) -> MatchView {
    if mm_hit(m, c0, bitcount) {
        MatchView { idx: mm_slot(m, bitcount), used: true, ..m }
    } else if m.len > 0 && m.predicted >= 0 {
        MatchView { len: 0, used: false, ..m }
    } else {
        MatchView { used: false, ..m }
    }
}

/// The match model's stretched prediction (0 when it has none).
pub open spec fn mm_input(m: MatchView, c0: i32, bitcount: i32) -> i32 {
    if mm_hit(m, c0, bitcount) {
        stretch12_table()[m.sm[mm_slot(m, bitcount) as int] as int]
    } else {
        0
    }
}

/// A confidence moved towards the observed bit.
pub open spec fn mm_adapt(v: u16, bit: i32, shift: u32) -> u16 {
    let t: i32 = if bit != 0 { 4095 } else { 0 };
    let a = v as i32;
    (a + (((t - a) as i32) >> shift)) as u16
}

/// The state after learning `bit`.
pub open spec fn mm_learn(m: MatchView, bit: i32) -> MatchView {
    if m.used {
        MatchView { sm: m.sm.update(m.idx as int, mm_adapt(m.sm[m.idx as int], bit, m.shift)), ..m }
    } else {
        m
    }
}

/// The state after a byte completes: a confirmed match advances, a broken
/// one is dropped.
pub open spec fn mm_on_byte(m: MatchView, byte: u8) -> MatchView {
    if m.len > 0 {
        if (m.predicted & 0xff) as u8 == byte {
            MatchView { ptr: (m.ptr + 1) as u32, len: if m.len < 0x3ff { (m.len + 1) as i32 } else { m.len }, ..m }
        } else {
            MatchView { len: 0, ..m }
        }
    } else {
        m
    }
}

/// The state after recording position `pos` for the current context and,
/// when idle, starting a match at the previous occurrence.
pub open spec fn mm_find(m: MatchView, c4: u32, buf: Seq<u8>, mask: u32, pos: u32) -> MatchView {
    if pos >= m.order {
        let h = mm_hash(m, c4, buf, mask, pos) as int;
        let cand = m.tab[h];
        let m1 = MatchView { tab: m.tab.update(h, pos), ..m };
        if m.len == 0 && cand > 0 && cand < pos {
            let l = match_len(buf, mask, cand, pos, 0);
            let nl = if m.min_len == 0 { if l > 0 { l } else { 1 } } else if l >= m.min_len { l } else { 0 };
            MatchView { ptr: cand, len: nl, ..m1 }
        } else {
            m1
        }
    } else {
        m
    }
}

/// The state after fixing the predicted next byte.
pub open spec fn mm_set_predicted(m: MatchView, buf: Seq<u8>, mask: u32, pos: u32) -> MatchView {
    MatchView {
        predicted: if m.len > 0 && m.ptr < pos { buf_byte(buf, mask, m.ptr) as i32 } else { -1i32 },
        ..m
    }
}

/// A fresh match model.
pub open spec fn mm_init(order: u32, bits: u32, cap: i32, shift: u32, min_len: i32, slots: nat) -> MatchView {
    MatchView {
        tab: Seq::new(crate::algorithm::model::slot::pow2(bits), |j: int| 0u32),
        ptr: 0,
        len: 0,
        predicted: -1i32,
        sm: Seq::new(slots, |j: int| 2048u16),
        used: false,
        idx: 0,
        order,
        bits,
        cap,
        shift,
        min_len,
    }
}

/// Whether a view describes a usable match model.
pub open spec fn mm_view_ok(m: MatchView) -> bool {
    &&& (m.order == 2 || 6 <= m.order <= 14)
    &&& 1 <= m.bits <= 24
    &&& m.tab.len() == crate::algorithm::model::slot::pow2(m.bits)
    &&& 1 <= m.cap <= 100
    &&& 1 <= m.shift <= 8
    &&& 0 <= m.min_len <= 0x3ff
    &&& m.sm.len() >= 2 * m.cap + 2
    &&& m.sm.len() <= 256
    &&& m.idx < m.sm.len()
    &&& 0 <= m.len <= 0x3ff
    &&& -1 <= m.predicted <= 255
    &&& forall|j: int| 0 <= j < m.sm.len() ==> #[trigger] m.sm[j] <= 4095
}

/// The match's pointer lags the position, strictly while a match is live.
pub open spec fn mm_ptr_ok(m: MatchView, pos: u32) -> bool {
    m.ptr <= pos && (m.len > 0 ==> m.ptr < pos)
}

proof fn lemma_adapt_range(v: u16, bit: i32, shift: u32)
    requires
        v <= 4095,
        0 <= bit <= 1,
        1 <= shift <= 8,
    ensures
        mm_adapt(v, bit, shift) <= 4095,
{
    let t: i32 = if bit != 0 { 4095 } else { 0 };
    let a = v as i32;
    let x = (t - a) as i32;
    assert(0 <= a + (x >> shift) <= 4095) by (bit_vector)
        requires 0 <= a <= 4095, x == t - a, t == 0 || t == 4095, 1 <= shift <= 8;
}

pub struct MatchModel {
    tab: Vec<u32>,
    ptr: u32,
    len: i32,
    predicted: i32,
    sm: Vec<u16>,
    used: bool,
    idx: usize,
    order: u32,
    bits: u32,
    cap: i32,
    shift: u32,
    min_len: i32,
}

impl MatchModel {
    pub closed spec fn view(&self) -> MatchView {
        MatchView {
            tab: self.tab@,
            ptr: self.ptr,
            len: self.len,
            predicted: self.predicted,
            sm: self.sm@,
            used: self.used,
            idx: self.idx,
            order: self.order,
            bits: self.bits,
            cap: self.cap,
            shift: self.shift,
            min_len: self.min_len,
        }
    }

    pub closed spec fn wf(&self) -> bool {
        mm_view_ok(self@)
    }

    /// A match model hashing `order` bytes into 2^bits candidates, with
    /// `slots` confidence slots.
    pub fn new(order: u32, bits: u32, cap: i32, shift: u32, min_len: i32, slots: usize) -> (m: Self)
        requires
            order == 2 || 6 <= order <= 14,
            1 <= bits <= 24,
            1 <= cap <= 100,
            1 <= shift <= 8,
            0 <= min_len <= 0x3ff,
            2 * cap + 2 <= slots <= 256,
        ensures
            m@ == mm_init(order, bits, cap, shift, min_len, slots as nat),
            m.wf(),
    {
        proof {
            crate::algorithm::model::slot::lemma_shift_pow2(bits);
        }
        let tab = vec![0u32; 1usize << bits];
        let sm = vec![2048u16; slots];
        let m = MatchModel { tab, ptr: 0, len: 0, predicted: -1, sm, used: false, idx: 0, order, bits, cap, shift, min_len };
        assert(m@.tab =~= mm_init(order, bits, cap, shift, min_len, slots as nat).tab);
        assert(m@.sm =~= mm_init(order, bits, cap, shift, min_len, slots as nat).sm);
        m
    }

    /// Length of the current match (0 when idle).
    pub fn match_length(&self) -> (l: i32)
        requires
            self.wf(),
        ensures
            l == self@.len,
            0 <= l <= 0x3ff,
    {
        self.len
    }

    /// Check the live match against the partial byte; return its stretched
    /// confidence for the expected bit (0 when none).
    pub fn predict(&mut self, c0: i32, bitcount: i32, stretch: &[i32]) -> (r: i32)
        requires
            old(self).wf(),
            0 <= bitcount <= 7,
            1 <= c0 <= 255,
            stretch@ == stretch12_table(),
        ensures
            final(self)@ == mm_predict(old(self)@, c0, bitcount),
            r == mm_input(old(self)@, c0, bitcount),
            final(self).wf(),
            -2047 <= r <= 2047,
    {
        proof {
            lemma_stretch_tables_range();
        }
        self.used = false;
        let mut r: i32 = 0;
        if self.len > 0 && self.predicted >= 0 {
            let bc = bitcount as u32;
            proof {
                assert((1i32 << bc) <= 128 && (1i32 << bc) >= 1) by (bit_vector)
                    requires 0 <= bc <= 7;
            }
            let sofar = c0 - (1i32 << bc);
            if sofar == (self.predicted >> (8 - bc)) {
                let e = (self.predicted >> (7 - bc)) & 1;
                let li = if self.len > self.cap { self.cap } else { self.len };
                proof {
                    let pr = self.predicted;
                    assert(0 <= (pr >> ((7 - bc) as u32)) & 1 <= 1) by (bit_vector)
                        requires 0 <= pr <= 255, 0 <= bc <= 7;
                    assert(((li << 1i32) | e) <= 2 * li + 1 && ((li << 1i32) | e) >= 0) by (bit_vector)
                        requires 0 <= li <= 100, 0 <= e <= 1;
                }
                self.idx = ((li << 1) | e) as usize;
                let v = self.sm[self.idx];
                r = stretch[v as usize];
                self.used = true;
            } else {
                self.len = 0;
            }
        }
        r
    }

    /// Learn `bit` in the confidence slot used by the last prediction.
    pub fn learn(&mut self, bit: i32)
        requires
            old(self).wf(),
            0 <= bit <= 1,
        ensures
            final(self)@ == mm_learn(old(self)@, bit),
            final(self).wf(),
    {
        if self.used {
            let i = self.idx;
            let v = self.sm[i] as i32;
            proof {
                lemma_adapt_range(self.sm@[i as int], bit, self.shift);
                let t: i32 = if bit != 0 { 4095 } else { 0 };
                let x = (t - v) as i32;
                let sh = self.shift;
                assert(-4095 <= (x >> sh) <= 4095) by (bit_vector)
                    requires -4095 <= x <= 4095, 1 <= sh <= 8;
            }
            let nv = #[verifier::truncate] ((v + (((if bit != 0 { 4095 } else { 0 }) - v) >> self.shift)) as u16);
            self.sm.set(i, nv);
        }
    }

    /// A byte completed: advance a confirmed match, drop a broken one.
    pub fn on_byte(&mut self, byte: u8, pos: u32)
        requires
            old(self).wf(),
            mm_ptr_ok(old(self)@, pos),
        ensures
            final(self)@ == mm_on_byte(old(self)@, byte),
            final(self).wf(),
            final(self)@.ptr <= pos,
    {
        if self.len > 0 {
            proof {
                let pr = self.predicted;
                assert(0 <= (pr & 0xff) <= 255) by (bit_vector);
            }
            if (self.predicted & 0xff) as u8 == byte {
                self.ptr += 1;
                if self.len < 0x3ff {
                    self.len += 1;
                }
            } else {
                self.len = 0;
            }
        }
    }

    /// Record `pos` for the context ending at `pos` and, when idle, start a
    /// match at its previous occurrence.
    pub fn find(&mut self, c4: u32, buf: &[u8], mask: u32, pos: u32)
        requires
            old(self).wf(),
            buf_ok(buf@, mask),
            mm_ptr_ok(old(self)@, pos),
        ensures
            final(self)@ == mm_find(old(self)@, c4, buf@, mask, pos),
            final(self).wf(),
            mm_ptr_ok(final(self)@, pos),
    {
        if pos >= self.order {
            let h = self.hash(c4, buf, mask, pos);
            let cand = self.tab[h];
            self.tab.set(h, pos);
            if self.len == 0 && cand > 0 && cand < pos {
                self.ptr = cand;
                let l = extend_match(buf, mask, cand, pos);
                self.len = if self.min_len == 0 {
                    if l > 0 { l } else { 1 }
                } else if l >= self.min_len {
                    l
                } else {
                    0
                };
            }
        }
    }

    /// The candidate-table index for the context ending at `pos`.
    fn hash(&self, c4: u32, buf: &[u8], mask: u32, pos: u32) -> (h: usize)
        requires
            self.wf(),
            buf_ok(buf@, mask),
            pos >= self@.order,
        ensures
            h == mm_hash(self@, c4, buf@, mask, pos),
            h < self@.tab.len(),
    {
        let sh = 32 - self.bits;
        proof {
            crate::algorithm::model::slot::lemma_shift_pow2(self.bits);
        }
        let v = if self.order == 2 {
            (c4 & 0xffff).wrapping_mul(2654435761)
        } else {
            let mut h = c4.wrapping_mul(2654435761);
            let mut j: u32 = 5;
            while j <= self.order
                invariant
                    5 <= j <= self.order + 1,
                    self.order <= 14,
                    pos >= self.order,
                    buf_ok(buf@, mask),
                    h == mm_fold(c4, buf@, mask, pos, j - 1),
                decreases self.order + 1 - j,
            {
                let b = byte_at(buf, mask, pos - j) as u32;
                h = h.wrapping_add(b.wrapping_mul(mult(j)));
                j += 1;
            }
            h
        };
        proof {
            let b = self.bits;
            assert((v >> ((32 - b) as u32)) < (1u32 << b)) by (bit_vector)
                requires 1 <= b <= 24;
        }
        (v >> sh) as usize
    }

    /// Fix the predicted next byte from the match pointer.
    pub fn set_predicted(&mut self, buf: &[u8], mask: u32, pos: u32)
        requires
            old(self).wf(),
            buf_ok(buf@, mask),
        ensures
            final(self)@ == mm_set_predicted(old(self)@, buf@, mask, pos),
            final(self).wf(),
    {
        self.predicted = if self.len > 0 && self.ptr < pos { byte_at(buf, mask, self.ptr) as i32 } else { -1 };
    }
}

/// Count how far the history before `cand` agrees with the history before
/// `pos` (at most 1023 bytes).
fn extend_match(buf: &[u8], mask: u32, cand: u32, pos: u32) -> (l: i32)
    requires
        buf_ok(buf@, mask),
    ensures
        l == match_len(buf@, mask, cand, pos, 0),
        0 <= l <= 0x3ff,
{
    let mut l: i32 = 0;
    while l < 0x3ff && cand > l as u32 && pos > (l as u32 + 1)
        && byte_at(buf, mask, cand - 1 - l as u32) == byte_at(buf, mask, pos - 1 - l as u32)
        invariant
            0 <= l <= 0x3ff,
            buf_ok(buf@, mask),
            match_len(buf@, mask, cand, pos, 0) == match_len(buf@, mask, cand, pos, l),
        decreases 0x3ff - l,
    {
        l += 1;
    }
    l
}

} // verus!

//! Binary arithmetic coder (carry-less, 32-bit), lpaq-style.
//!
//! Probabilities are 12-bit P(bit == 1), clamped into [1, 4094]. The encoder
//! appends to a `Vec`; the decoder reads from a slice and sees 255 past its end.
//!
//! The central fact proved here (`lemma_decode_step`) is that a decoder fed the
//! encoder's output and the same probability sequence recovers every bit.

use vstd::prelude::*;

verus! {

/// The probability actually used by the coder: `p` clamped into [1, 4094].
pub open spec fn coder_p(p: i32) -> int {
    if p < 1 {
        1
    } else if p > 4094 {
        4094
    } else {
        p as int
    }
}

/// The split point of the interval [x1, x2] under probability `p`.
pub open spec fn split(x1: u32, x2: u32, p: i32) -> int {
    x1 + ((x2 - x1) * coder_p(p)) / 4096
}

/// Whether the two bounds agree in their top byte (a byte can be emitted).
pub open spec fn same_top(x1: u32, x2: u32) -> bool {
    x1 / 0x100_0000 == x2 / 0x100_0000
}

/// The coder's interval invariant after normalization.
pub open spec fn interval_ok(x1: u32, x2: u32) -> bool {
    x1 <= x2 && !same_top(x1, x2)
}

/// Emit the agreed top bytes of [x1, x2] and widen the interval, until the
/// top bytes differ. Returns the new bounds and the extended output.
pub open spec fn shift(x1: u32, x2: u32, out: Seq<u8>) -> (u32, u32, Seq<u8>)
    decreases 0x1_0000_0000 - (x2 - x1),
{
    if x1 <= x2 && same_top(x1, x2) {
        shift(
            ((x1 % 0x100_0000) * 256) as u32,
            ((x2 % 0x100_0000) * 256 + 255) as u32,
            out.push((x2 / 0x100_0000) as u8),
        )
    } else {
        (x1, x2, out)
    }
}

/// The abstract state of an encoder.
pub struct EncState {
    pub x1: u32,
    pub x2: u32,
    pub out: Seq<u8>,
}

/// The interval after coding `bit` under probability `p`, before normalization.
pub open spec fn narrow(x1: u32, x2: u32, p: i32, bit: bool) -> (u32, u32) {
    if bit {
        (x1, split(x1, x2, p) as u32)
    } else {
        ((split(x1, x2, p) + 1) as u32, x2)
    }
}

/// One encoding step: narrow the interval to `bit`'s side, then normalize.
pub open spec fn enc_step(e: EncState, p: i32, bit: bool) -> EncState {
    let (a, b) = narrow(e.x1, e.x2, p, bit);
    let (x1, x2, out) = shift(a, b, e.out);
    EncState { x1, x2, out }
}

/// The four big-endian bytes of `x`.
pub open spec fn be_bytes(x: u32) -> Seq<u8> {
    seq![(x / 0x100_0000) as u8, ((x / 0x1_0000) % 256) as u8, ((x / 256) % 256) as u8, (x % 256) as u8]
}

/// The encoder state after `k` steps of coding `bits` under probabilities `ps`.
pub open spec fn enc_run(ps: Seq<i32>, bits: Seq<bool>, k: nat) -> EncState
    decreases k,
{
    if k == 0 {
        EncState { x1: 0, x2: 0xffff_ffff, out: Seq::empty() }
    } else {
        enc_step(enc_run(ps, bits, (k - 1) as nat), ps[k - 1], bits[k - 1])
    }
}

/// The full coded stream: everything emitted, then the final low bound.
pub open spec fn enc_output(ps: Seq<i32>, bits: Seq<bool>) -> Seq<u8> {
    let e = enc_run(ps, bits, bits.len());
    e.out + be_bytes(e.x1)
}

/// Byte `j` of a stream as the decoder sees it: 255 past the end.
pub open spec fn byte_at(s: Seq<u8>, j: int) -> int {
    if j < s.len() {
        s[j] as int
    } else {
        255
    }
}

/// The 32-bit big-endian window of `s` starting at byte `e`.
pub open spec fn window(s: Seq<u8>, e: int) -> int {
    byte_at(s, e) * 0x100_0000 + byte_at(s, e + 1) * 0x1_0000 + byte_at(s, e + 2) * 256 + byte_at(s, e + 3)
}

/// The abstract state of a decoder (the input is fixed).
pub struct DecState {
    pub x1: u32,
    pub x2: u32,
    pub x: u32,
    pub pos: int,
}

/// Decoder normalization: same interval moves as `shift`, shifting in one
/// input byte per emitted byte.
pub open spec fn dec_shift(x1: u32, x2: u32, x: u32, pos: int, s: Seq<u8>) -> DecState
    decreases 0x1_0000_0000 - (x2 - x1),
{
    if x1 <= x2 && same_top(x1, x2) {
        dec_shift(
            ((x1 % 0x100_0000) * 256) as u32,
            ((x2 % 0x100_0000) * 256 + 255) as u32,
            ((x % 0x100_0000) * 256 + byte_at(s, pos)) as u32,
            if pos < s.len() { pos + 1 } else { pos },
            s,
        )
    } else {
        DecState { x1, x2, x, pos }
    }
}

/// The bit a decoder in state `d` reads under probability `p`.
pub open spec fn dec_bit(d: DecState, p: i32) -> bool {
    d.x <= split(d.x1, d.x2, p)
}

/// The decoder state after reading one bit under probability `p`.
pub open spec fn dec_step(d: DecState, p: i32, s: Seq<u8>) -> DecState {
    let (a, b) = narrow(d.x1, d.x2, p, dec_bit(d, p));
    dec_shift(a, b, d.x, d.pos, s)
}

/// The decoder state right after construction on input `s`.
pub open spec fn dec_init(s: Seq<u8>) -> DecState {
    DecState {
        x1: 0,
        x2: 0xffff_ffff,
        x: window(s, 0) as u32,
        pos: if s.len() < 4 { s.len() as int } else { 4 },
    }
}

/// The decoder state that mirrors encoder state `e` on stream `s`.
pub open spec fn mirror(e: EncState, s: Seq<u8>) -> DecState {
    DecState {
        x1: e.x1,
        x2: e.x2,
        x: window(s, e.out.len() as int) as u32,
        pos: if e.out.len() as int + 4 < s.len() { e.out.len() as int + 4 } else { s.len() as int },
    }
}

proof fn lemma_bytes_window(x: u32)
    ensures
        be_bytes(x)[0] * 0x100_0000 + be_bytes(x)[1] * 0x1_0000 + be_bytes(x)[2] * 256 + be_bytes(x)[3] == x,
{
}

proof fn lemma_shift_step(x1: u32, x2: u32)
    requires
        x1 <= x2,
        same_top(x1, x2),
    ensures
        (x1 % 0x100_0000) * 256 <= (x2 % 0x100_0000) * 256 + 255 < 0x1_0000_0000,
        (x2 % 0x100_0000) * 256 + 255 - (x1 % 0x100_0000) * 256 > x2 - x1,
{
}

/// `shift` only appends to the output.
pub proof fn lemma_shift_extends(x1: u32, x2: u32, out: Seq<u8>)
    ensures
        shift(x1, x2, out).2.len() >= out.len(),
        shift(x1, x2, out).2.subrange(0, out.len() as int) == out,
    decreases 0x1_0000_0000 - (x2 - x1),
{
    if x1 <= x2 && same_top(x1, x2) {
        lemma_shift_step(x1, x2);
        let o2 = out.push((x2 / 0x100_0000) as u8);
        lemma_shift_extends(((x1 % 0x100_0000) * 256) as u32, ((x2 % 0x100_0000) * 256 + 255) as u32, o2);
        let r = shift(((x1 % 0x100_0000) * 256) as u32, ((x2 % 0x100_0000) * 256 + 255) as u32, o2).2;
        assert(r.subrange(0, out.len() as int) =~= r.subrange(0, o2.len() as int).subrange(0, out.len() as int));
        assert(o2.subrange(0, out.len() as int) =~= out);
    }
}

/// `shift` keeps a well-ordered interval and stops at distinct top bytes.
pub proof fn lemma_shift_ok(x1: u32, x2: u32, out: Seq<u8>)
    requires
        x1 <= x2,
    ensures
        interval_ok(shift(x1, x2, out).0, shift(x1, x2, out).1),
    decreases 0x1_0000_0000 - (x2 - x1),
{
    if same_top(x1, x2) {
        lemma_shift_step(x1, x2);
        lemma_shift_ok(((x1 % 0x100_0000) * 256) as u32, ((x2 % 0x100_0000) * 256 + 255) as u32, out.push((x2 / 0x100_0000) as u8));
    }
}

/// The split point lies inside a normalized interval, below its top.
pub proof fn lemma_split(x1: u32, x2: u32, p: i32)
    requires
        interval_ok(x1, x2),
    ensures
        x1 <= split(x1, x2, p) < x2,
{
    let r = x2 - x1;
    assert(r > 0);
    assert(0 <= r * coder_p(p) <= r * 4094) by (nonlinear_arith)
        requires r > 0, 1 <= coder_p(p) <= 4094;
    assert((r * coder_p(p)) / 4096 < r) by (nonlinear_arith)
        requires r > 0, r * coder_p(p) <= r * 4094;
}

/// Narrowing a normalized interval leaves a well-ordered sub-interval.
pub proof fn lemma_narrow(x1: u32, x2: u32, p: i32, bit: bool)
    requires
        interval_ok(x1, x2),
    ensures
        x1 <= narrow(x1, x2, p, bit).0 <= narrow(x1, x2, p, bit).1 <= x2,
{
    lemma_split(x1, x2, p);
}

/// Each encoder step keeps the interval normalized and only appends output.
pub proof fn lemma_enc_step(e: EncState, p: i32, bit: bool)
    requires
        interval_ok(e.x1, e.x2),
    ensures
        interval_ok(enc_step(e, p, bit).x1, enc_step(e, p, bit).x2),
        enc_step(e, p, bit).out.len() >= e.out.len(),
        enc_step(e, p, bit).out.subrange(0, e.out.len() as int) == e.out,
{
    lemma_narrow(e.x1, e.x2, p, bit);
    let (a, b) = narrow(e.x1, e.x2, p, bit);
    lemma_shift_ok(a, b, e.out);
    lemma_shift_extends(a, b, e.out);
}

/// The least gap of an interval after `k` emitted bytes.
spec fn gap_after(k: int) -> int {
    if k <= 0 {
        0
    } else if k == 1 {
        0xff
    } else if k == 2 {
        0xffff
    } else if k == 3 {
        0xff_ffff
    } else {
        0xffff_ffff
    }
}

proof fn lemma_shift_count(x1: u32, x2: u32, out: Seq<u8>, k: int)
    requires
        x1 <= x2,
        0 <= k <= 4,
        x2 - x1 >= gap_after(k),
    ensures
        shift(x1, x2, out).2.len() <= out.len() + 4 - k,
    decreases 4 - k,
{
    if same_top(x1, x2) {
        lemma_shift_step(x1, x2);
        assert(x2 - x1 == x2 % 0x100_0000 - x1 % 0x100_0000);
        lemma_shift_count(
            ((x1 % 0x100_0000) * 256) as u32,
            ((x2 % 0x100_0000) * 256 + 255) as u32,
            out.push((x2 / 0x100_0000) as u8),
            k + 1,
        );
    }
}

/// One encoding step appends at most four bytes.
pub proof fn lemma_encode_appends_at_most_4(e: EncState, p: i32, bit: bool)
    requires
        interval_ok(e.x1, e.x2),
    ensures
        e.out.len() <= enc_step(e, p, bit).out.len() <= e.out.len() + 4,
{
    lemma_enc_step(e, p, bit);
    lemma_narrow(e.x1, e.x2, p, bit);
    let (a, b) = narrow(e.x1, e.x2, p, bit);
    lemma_shift_count(a, b, e.out, 0);
}

/// Every encoder state of a run is normalized, and each output is a prefix of
/// every later one.
pub proof fn lemma_enc_run(ps: Seq<i32>, bits: Seq<bool>, k: nat, j: nat)
    requires
        k <= j <= bits.len(),
        ps.len() == bits.len(),
    ensures
        interval_ok(enc_run(ps, bits, k).x1, enc_run(ps, bits, k).x2),
        enc_run(ps, bits, j).out.len() >= enc_run(ps, bits, k).out.len(),
        enc_run(ps, bits, j).out.subrange(0, enc_run(ps, bits, k).out.len() as int) == enc_run(ps, bits, k).out,
    decreases j,
{
    if j > k {
        lemma_enc_run(ps, bits, k, (j - 1) as nat);
        lemma_enc_run(ps, bits, (j - 1) as nat, (j - 1) as nat);
        let ej1 = enc_run(ps, bits, (j - 1) as nat);
        lemma_enc_step(ej1, ps[j - 1], bits[j - 1]);
        let ek = enc_run(ps, bits, k).out;
        let oj = enc_run(ps, bits, j).out;
        assert(oj.subrange(0, ek.len() as int) =~= oj.subrange(0, ej1.out.len() as int).subrange(0, ek.len() as int));
    } else if k > 0 {
        lemma_enc_run(ps, bits, (k - 1) as nat, (k - 1) as nat);
        lemma_enc_step(enc_run(ps, bits, (k - 1) as nat), ps[k - 1], bits[k - 1]);
    }
    assert(enc_run(ps, bits, k).out.subrange(0, enc_run(ps, bits, k).out.len() as int) =~= enc_run(ps, bits, k).out);
}

proof fn lemma_window_step(s: Seq<u8>, e: int)
    requires
        0 <= e,
    ensures
        window(s, e) == byte_at(s, e) * 0x100_0000 + window(s, e + 1) / 256,
        window(s, e + 1) == (window(s, e) % 0x100_0000) * 256 + byte_at(s, e + 4),
        0 <= window(s, e) < 0x1_0000_0000,
{
    assert(0 <= byte_at(s, e) < 256);
    assert(0 <= byte_at(s, e + 1) < 256);
    assert(0 <= byte_at(s, e + 2) < 256);
    assert(0 <= byte_at(s, e + 3) < 256);
    assert(0 <= byte_at(s, e + 4) < 256);
}

/// Reading backwards through a normalization: if the stream's window after
/// the emitted bytes lies in the widened interval, the window before them lies
/// in the interval before normalization.
proof fn lemma_shift_back(x1: u32, x2: u32, out: Seq<u8>, s: Seq<u8>)
    requires
        x1 <= x2,
        shift(x1, x2, out).2.len() <= s.len(),
        s.subrange(0, shift(x1, x2, out).2.len() as int) == shift(x1, x2, out).2,
        shift(x1, x2, out).0 <= window(s, shift(x1, x2, out).2.len() as int) <= shift(x1, x2, out).1,
    ensures
        x1 <= window(s, out.len() as int) <= x2,
    decreases 0x1_0000_0000 - (x2 - x1),
{
    if same_top(x1, x2) {
        lemma_shift_step(x1, x2);
        let c = (x2 / 0x100_0000) as u8;
        let o2 = out.push(c);
        let y1 = ((x1 % 0x100_0000) * 256) as u32;
        let y2 = ((x2 % 0x100_0000) * 256 + 255) as u32;
        lemma_shift_extends(y1, y2, o2);
        let full = shift(y1, y2, o2).2;
        assert(full.subrange(0, o2.len() as int) == o2);
        assert(s[out.len() as int] == full[out.len() as int]);
        assert(full[out.len() as int] == o2[out.len() as int]);
        lemma_shift_back(y1, y2, o2, s);
        lemma_window_step(s, out.len() as int);
        let w1 = window(s, out.len() as int + 1);
        assert(y1 <= w1 <= y2);
        assert(byte_at(s, out.len() as int) == x2 / 0x100_0000);
    }
}

/// The stream `enc_output` decodes back: after `k` steps the stream window at
/// the emitted position lies inside both the encoder's interval and the
/// interval narrowed to the next bit.
pub proof fn lemma_window_in_interval(ps: Seq<i32>, bits: Seq<bool>, k: nat)
    requires
        k <= bits.len(),
        ps.len() == bits.len(),
    ensures
        ({
            let s = enc_output(ps, bits);
            let e = enc_run(ps, bits, k);
            &&& e.out.len() <= s.len()
            &&& s.subrange(0, e.out.len() as int) == e.out
            &&& e.x1 <= window(s, e.out.len() as int) <= e.x2
            &&& k < bits.len() ==> narrow(e.x1, e.x2, ps[k as int], bits[k as int]).0 <= window(s, e.out.len() as int)
            &&& k < bits.len() ==> window(s, e.out.len() as int) <= narrow(e.x1, e.x2, ps[k as int], bits[k as int]).1
        }),
    decreases bits.len() - k,
{
    let s = enc_output(ps, bits);
    let n = bits.len();
    let e = enc_run(ps, bits, k);
    let en = enc_run(ps, bits, n);
    lemma_enc_run(ps, bits, k, n);
    assert(s.subrange(0, en.out.len() as int) =~= en.out);
    assert(s.subrange(0, e.out.len() as int) =~= en.out.subrange(0, e.out.len() as int));
    if k == n {
        lemma_bytes_window(e.x1);
        assert(byte_at(s, e.out.len() as int) == be_bytes(e.x1)[0]);
        assert(byte_at(s, e.out.len() as int + 1) == be_bytes(e.x1)[1]);
        assert(byte_at(s, e.out.len() as int + 2) == be_bytes(e.x1)[2]);
        assert(byte_at(s, e.out.len() as int + 3) == be_bytes(e.x1)[3]);
        lemma_shift_ok(0, 0, Seq::empty());
    } else {
        lemma_window_in_interval(ps, bits, k + 1);
        let (a, b) = narrow(e.x1, e.x2, ps[k as int], bits[k as int]);
        lemma_narrow(e.x1, e.x2, ps[k as int], bits[k as int]);
        lemma_shift_back(a, b, e.out, s);
    }
}

/// Decoder normalization tracks encoder normalization on the coded stream.
proof fn lemma_dec_shift(x1: u32, x2: u32, out: Seq<u8>, s: Seq<u8>)
    requires
        x1 <= x2,
    ensures
        ({
            let (y1, y2, o) = shift(x1, x2, out);
            dec_shift(x1, x2, window(s, out.len() as int) as u32,
                if out.len() as int + 4 < s.len() { out.len() as int + 4 } else { s.len() as int }, s)
                == mirror(EncState { x1: y1, x2: y2, out: o }, s)
        }),
    decreases 0x1_0000_0000 - (x2 - x1),
{
    lemma_window_step(s, out.len() as int);
    if same_top(x1, x2) {
        lemma_shift_step(x1, x2);
        let y1 = ((x1 % 0x100_0000) * 256) as u32;
        let y2 = ((x2 % 0x100_0000) * 256 + 255) as u32;
        let o2 = out.push((x2 / 0x100_0000) as u8);
        lemma_dec_shift(y1, y2, o2, s);
        let pos = if out.len() as int + 4 < s.len() { out.len() as int + 4 } else { s.len() as int };
        assert(byte_at(s, pos) == byte_at(s, out.len() as int + 4));
    }
}

/// One decoding step on the encoder's own stream, in the state mirroring the
/// encoder after `k` steps, returns bit `k` and mirrors the encoder after
/// `k + 1` steps.
pub proof fn lemma_decode_step(ps: Seq<i32>, bits: Seq<bool>, k: nat)
    requires
        k < bits.len(),
        ps.len() == bits.len(),
    ensures
        ({
            let s = enc_output(ps, bits);
            let d = mirror(enc_run(ps, bits, k), s);
            &&& dec_bit(d, ps[k as int]) == bits[k as int]
            &&& dec_step(d, ps[k as int], s) == mirror(enc_run(ps, bits, k + 1), s)
        }),
{
    let s = enc_output(ps, bits);
    let e = enc_run(ps, bits, k);
    let p = ps[k as int];
    lemma_window_in_interval(ps, bits, k);
    lemma_enc_run(ps, bits, k, k);
    lemma_split(e.x1, e.x2, p);
    lemma_window_step(s, e.out.len() as int);
    let d = mirror(e, s);
    assert(d.x == window(s, e.out.len() as int));
    assert(dec_bit(d, p) == bits[k as int]);
    let (a, b) = narrow(e.x1, e.x2, p, bits[k as int]);
    lemma_narrow(e.x1, e.x2, p, bits[k as int]);
    lemma_dec_shift(a, b, e.out, s);
}

/// The decoder's starting state mirrors the encoder's starting state.
pub proof fn lemma_decode_init(ps: Seq<i32>, bits: Seq<bool>)
    ensures
        dec_init(enc_output(ps, bits)) == mirror(enc_run(ps, bits, 0), enc_output(ps, bits)),
{
    let s = enc_output(ps, bits);
    lemma_window_step(s, 0);
}

/// Two decoders on streams `s` and `t` read alike: same interval and code
/// value, and the bytes ahead of each cursor agree from there on (a byte past
/// the end reads as 255).
pub open spec fn same_reading(d1: DecState, s: Seq<u8>, d2: DecState, t: Seq<u8>) -> bool {
    &&& d1.x1 == d2.x1
    &&& d1.x2 == d2.x2
    &&& d1.x == d2.x
    &&& 0 <= d1.pos <= s.len()
    &&& 0 <= d2.pos <= t.len()
    &&& forall|j: int| j >= d1.pos ==> #[trigger] byte_at(s, j) == byte_at(t, j - d1.pos + d2.pos)
}

proof fn lemma_dec_shift_same(x1: u32, x2: u32, x: u32, p1: int, s: Seq<u8>, p2: int, t: Seq<u8>)
    requires
        same_reading(DecState { x1, x2, x, pos: p1 }, s, DecState { x1, x2, x, pos: p2 }, t),
    ensures
        same_reading(dec_shift(x1, x2, x, p1, s), s, dec_shift(x1, x2, x, p2, t), t),
    decreases 0x1_0000_0000 - (x2 - x1),
{
    if x1 <= x2 && same_top(x1, x2) {
        lemma_shift_step(x1, x2);
        assert(byte_at(s, p1) == byte_at(t, p1 - p1 + p2));
        let q1 = if p1 < s.len() { p1 + 1 } else { p1 };
        let q2 = if p2 < t.len() { p2 + 1 } else { p2 };
        assert forall|j: int| j >= q1 implies #[trigger] byte_at(s, j) == byte_at(t, j - q1 + q2) by {
            if p1 < s.len() && p2 >= t.len() {
                assert(byte_at(s, j) == byte_at(t, j - p1 + p2));
            } else if p1 >= s.len() && p2 < t.len() {
                assert(byte_at(s, j + 1) == byte_at(t, j + 1 - p1 + p2));
            } else {
                assert(byte_at(s, j) == byte_at(t, j - p1 + p2));
            }
        }
        lemma_dec_shift_same(
            ((x1 % 0x100_0000) * 256) as u32,
            ((x2 % 0x100_0000) * 256 + 255) as u32,
            ((x % 0x100_0000) * 256 + byte_at(s, p1)) as u32,
            q1,
            s,
            q2,
            t,
        );
    }
}

/// Reading past the end is reading 0xFF bytes: decoders on `s` and on `s`
/// followed by any number of 0xFF bytes start alike, and decoders that read
/// alike read the same bit under any probability and keep reading alike.
pub proof fn lemma_padding_reads_like_ff(s: Seq<u8>, m: nat, d1: DecState, d2: DecState, p: i32)
    ensures
        same_reading(dec_init(s), s, dec_init(s + Seq::new(m, |i: int| 0xFFu8)), s + Seq::new(m, |i: int| 0xFFu8)),
        same_reading(d1, s, d2, s + Seq::new(m, |i: int| 0xFFu8)) ==> {
            let t = s + Seq::new(m, |i: int| 0xFFu8);
            &&& dec_bit(d1, p) == dec_bit(d2, p)
            &&& same_reading(dec_step(d1, p, s), s, dec_step(d2, p, t), t)
        },
{
    let t = s + Seq::new(m, |i: int| 0xFFu8);
    assert forall|j: int| j >= 0 implies #[trigger] byte_at(s, j) == byte_at(t, j) by {
        if j >= s.len() && j < t.len() {
            assert(t[j] == 0xFFu8);
        }
    }
    let e1 = dec_init(s);
    let e2 = dec_init(t);
    assert(byte_at(s, 0) == byte_at(t, 0) && byte_at(s, 1) == byte_at(t, 1) && byte_at(s, 2) == byte_at(t, 2)
        && byte_at(s, 3) == byte_at(t, 3));
    assert forall|j: int| j >= e1.pos implies #[trigger] byte_at(s, j) == byte_at(t, j - e1.pos + e2.pos) by {
        assert(byte_at(s, j) == byte_at(t, j));
        if e1.pos != e2.pos {
            assert(byte_at(s, j - e1.pos + e2.pos) == byte_at(t, j - e1.pos + e2.pos));
        }
    }
    if same_reading(d1, s, d2, t) {
        let (a, b) = narrow(d1.x1, d1.x2, p, dec_bit(d1, p));
        lemma_dec_shift_same(a, b, d1.x, d1.pos, s, d2.pos, t);
    }
}

/// A decoder whose code value sits at the top of its interval, with nothing
/// but 0xFF (or the end of the stream) ahead, reads a 0 and stays so; in
/// particular on an empty or all-0xFF stream every bit read is 0.
pub proof fn lemma_all_ff_reads_zero(d: DecState, p: i32, s: Seq<u8>)
    requires
        interval_ok(d.x1, d.x2),
        d.x == d.x2,
        forall|j: int| j >= d.pos ==> #[trigger] byte_at(s, j) == 255,
    ensures
        !dec_bit(d, p),
        interval_ok(dec_step(d, p, s).x1, dec_step(d, p, s).x2),
        dec_step(d, p, s).x == dec_step(d, p, s).x2,
        dec_step(d, p, s).pos >= d.pos,
        (forall|j: int| 0 <= j < s.len() ==> s[j] == 0xFFu8) ==> dec_init(s).x == dec_init(s).x2,
{
    lemma_split(d.x1, d.x2, p);
    let (a, b) = narrow(d.x1, d.x2, p, false);
    lemma_dec_shift_top(a, b, d.x, d.pos, s);
    if forall|j: int| 0 <= j < s.len() ==> s[j] == 0xFFu8 {
        assert(byte_at(s, 0) == 255 && byte_at(s, 1) == 255 && byte_at(s, 2) == 255 && byte_at(s, 3) == 255);
    }
}

/// The decoder state after `k` reads from stream `s`, the `j`-th under
/// probability `ps[j]`.
pub open spec fn dec_states(ps: Seq<i32>, s: Seq<u8>, k: nat) -> DecState
    decreases k,
{
    if k == 0 {
        dec_init(s)
    } else {
        dec_step(dec_states(ps, s, (k - 1) as nat), ps[k - 1], s)
    }
}

/// Decoding the encoder's own stream under the same probabilities returns
/// every coded bit: after `k` reads the decoder mirrors the encoder after `k`
/// steps, and each read so far gave the bit that was coded there.
pub proof fn lemma_decode_run(ps: Seq<i32>, bits: Seq<bool>, k: nat)
    requires
        ps.len() == bits.len(),
        k <= bits.len(),
    ensures
        dec_states(ps, enc_output(ps, bits), k) == mirror(enc_run(ps, bits, k), enc_output(ps, bits)),
        forall|j: int| 0 <= j < k ==> dec_bit(#[trigger] dec_states(ps, enc_output(ps, bits), j as nat), ps[j]) == bits[j],
    decreases k,
{
    let s = enc_output(ps, bits);
    if k == 0 {
        lemma_decode_init(ps, bits);
    } else {
        let k1 = (k - 1) as nat;
        lemma_decode_run(ps, bits, k1);
        lemma_decode_step(ps, bits, k1);
        assert forall|j: int| 0 <= j < k implies dec_bit(#[trigger] dec_states(ps, s, j as nat), ps[j]) == bits[j] by {
            if j < k1 {
                assert(dec_bit(dec_states(ps, s, j as nat), ps[j]) == bits[j]);
            }
        }
    }
}

/// A decoder at the top of its interval with only 0xFF (or the end of the
/// stream) ahead of its cursor.
pub open spec fn reads_top(d: DecState, s: Seq<u8>) -> bool {
    &&& interval_ok(d.x1, d.x2)
    &&& d.x == d.x2
    &&& d.pos >= 0
    &&& forall|j: int| j >= d.pos ==> #[trigger] byte_at(s, j) == 255
}

/// On an empty or all-0xFF stream every read returns 0, whatever the
/// probabilities and however many reads are made.
pub proof fn lemma_all_ff_run(ps: Seq<i32>, s: Seq<u8>, k: nat)
    requires
        forall|j: int| 0 <= j < s.len() ==> s[j] == 0xFFu8,
    ensures
        reads_top(dec_states(ps, s, k), s),
        !dec_bit(dec_states(ps, s, k), ps[k as int]),
    decreases k,
{
    assert forall|j: int| j >= 0 implies #[trigger] byte_at(s, j) == 255 by {
        if j < s.len() {
            assert(s[j] == 0xFFu8);
        }
    }
    let d = dec_states(ps, s, k);
    if k == 0 {
        lemma_all_ff_reads_zero(DecState { x1: 0, x2: 0xffff_ffff, x: 0xffff_ffff, pos: 0 }, ps[0], s);
        assert(!same_top(0, 0xffff_ffff));
    } else {
        let k1 = (k - 1) as nat;
        lemma_all_ff_run(ps, s, k1);
        let d1 = dec_states(ps, s, k1);
        lemma_all_ff_reads_zero(d1, ps[k1 as int], s);
    }
    lemma_all_ff_reads_zero(d, ps[k as int], s);
}

/// A stream followed by any number of 0xFF bytes decodes exactly like the
/// stream alone: after any number of reads under the same probabilities the
/// two decoders read alike, and the next read gives the same bit.
pub proof fn lemma_padding_run(ps: Seq<i32>, s: Seq<u8>, m: nat, k: nat)
    ensures
        ({
            let t = s + Seq::new(m, |i: int| 0xFFu8);
            &&& same_reading(dec_states(ps, s, k), s, dec_states(ps, t, k), t)
            &&& dec_bit(dec_states(ps, s, k), ps[k as int]) == dec_bit(dec_states(ps, t, k), ps[k as int])
        }),
    decreases k,
{
    let t = s + Seq::new(m, |i: int| 0xFFu8);
    if k == 0 {
        lemma_padding_reads_like_ff(s, m, dec_init(s), dec_init(t), ps[0]);
    } else {
        let k1 = (k - 1) as nat;
        lemma_padding_run(ps, s, m, k1);
        lemma_padding_reads_like_ff(s, m, dec_states(ps, s, k1), dec_states(ps, t, k1), ps[k1 as int]);
    }
    lemma_padding_reads_like_ff(s, m, dec_states(ps, s, k), dec_states(ps, t, k), ps[k as int]);
}

proof fn lemma_dec_shift_top(x1: u32, x2: u32, x: u32, pos: int, s: Seq<u8>)
    requires
        x1 <= x2,
        x == x2,
        forall|j: int| j >= pos ==> #[trigger] byte_at(s, j) == 255,
    ensures
        interval_ok(dec_shift(x1, x2, x, pos, s).x1, dec_shift(x1, x2, x, pos, s).x2),
        dec_shift(x1, x2, x, pos, s).x == dec_shift(x1, x2, x, pos, s).x2,
        dec_shift(x1, x2, x, pos, s).pos >= pos,
    decreases 0x1_0000_0000 - (x2 - x1),
{
    if x1 <= x2 && same_top(x1, x2) {
        lemma_shift_step(x1, x2);
        assert(byte_at(s, pos) == 255);
        let q = if pos < s.len() { pos + 1 } else { pos };
        lemma_dec_shift_top(
            ((x1 % 0x100_0000) * 256) as u32,
            ((x2 % 0x100_0000) * 256 + 255) as u32,
            ((x % 0x100_0000) * 256 + byte_at(s, pos)) as u32,
            q,
            s,
        );
    }
}

proof fn lemma_shift_bits(x1: u32, x2: u32)
    ensures
        ((x1 ^ x2) & 0xff00_0000u32 == 0) == (x1 / 0x100_0000u32 == x2 / 0x100_0000u32),
        x1 << 8u32 == (x1 % 0x100_0000u32) * 256,
        (x2 << 8u32) | 255u32 == (x2 % 0x100_0000u32) * 256 + 255,
        x2 >> 24u32 == x2 / 0x100_0000u32,
{
    assert((((x1 ^ x2) & 0xff00_0000u32 == 0) == (x1 / 0x100_0000u32 == x2 / 0x100_0000u32))
        && (x1 << 8u32 == (x1 % 0x100_0000u32) * 256)
        && ((x2 << 8u32) | 255u32 == (x2 % 0x100_0000u32) * 256 + 255)
        && (x2 >> 24u32 == x2 / 0x100_0000u32)) by (bit_vector);
}

proof fn lemma_byte_shifts(x: u32)
    ensures
        x >> 24u32 == x / 0x100_0000u32,
        (x >> 16u32) as u8 == ((x / 0x1_0000) % 256) as u8,
        (x >> 8u32) as u8 == ((x / 256) % 256) as u8,
        x as u8 == (x % 256) as u8,
        (x << 8u32) | 7u32 == (x << 8u32) + 7,
{
    assert((x >> 24u32 == x / 0x100_0000u32)
        && ((x >> 16u32) as u8 == ((x / 0x1_0000) % 256) as u8)
        && ((x >> 8u32) as u8 == ((x / 256) % 256) as u8)
        && (x as u8 == (x % 256) as u8)
        && ((x << 8u32) | 7u32 == (x << 8u32) + 7)) by (bit_vector);
}

proof fn lemma_shl_or(x: u32, b: u32)
    requires
        b < 256,
    ensures
        (x << 8u32) | b == (x % 0x100_0000u32) * 256 + b,
{
    assert((x << 8u32) | b == (x % 0x100_0000u32) * 256 + b) by (bit_vector)
        requires b < 256u32;
}

/// Shared narrowing arithmetic of the encoder and the decoder.
fn split_point(x1: u32, x2: u32, p: i32) -> (xmid: u32)
    requires
        interval_ok(x1, x2),
    ensures
        xmid == split(x1, x2, p),
{
    let mut p = p;
    if p < 1 {
        p = 1;
    }
    if p > 4094 {
        p = 4094;
    }
    proof {
        lemma_split(x1, x2, p);
    }
    let range = (x2 - x1) as u64;
    assert(range * (p as u64) <= 0xffff_ffff * 4094) by (nonlinear_arith)
        requires range <= 0xffff_ffff, 1 <= p <= 4094;
    let prod = range * p as u64;
    assert(prod >> 12u64 == prod / 4096) by (bit_vector);
    x1.wrapping_add((prod >> 12) as u32)
}

/// Arithmetic encoder: the interval [x1, x2] and the bytes emitted so far.
pub struct Encoder {
    x1: u32,
    x2: u32,
    out: Vec<u8>,
}

impl Encoder {
    /// The abstract encoder state.
    pub closed spec fn view(&self) -> EncState {
        EncState { x1: self.x1, x2: self.x2, out: self.out@ }
    }

    /// The encoder's interval is normalized.
    pub closed spec fn wf(&self) -> bool {
        interval_ok(self.x1, self.x2)
    }

    /// An encoder is well formed exactly when its interval is normalized.
    pub proof fn lemma_wf(&self)
        ensures
            self.wf() <==> interval_ok(self@.x1, self@.x2),
    {
    }

    /// A fresh encoder over the whole 32-bit interval.
    pub fn new() -> (e: Self)
        ensures
            e@ == enc_run(Seq::empty(), Seq::empty(), 0),
            e.wf(),
    {
        Encoder { x1: 0, x2: 0xffff_ffff, out: Vec::new() }
    }

    /// Code `bit` (any nonzero value is a 1) with 12-bit probability `p` of a 1.
    pub fn encode(&mut self, p: i32, bit: i32)
        requires
            old(self).wf(),
        ensures
            final(self)@ == enc_step(old(self)@, p, bit != 0),
            final(self).wf(),
    {
        let xmid = split_point(self.x1, self.x2, p);
        proof {
            lemma_narrow(self.x1, self.x2, p, bit != 0);
            lemma_split(self.x1, self.x2, p);
        }
        if bit != 0 {
            self.x2 = xmid;
        } else {
            self.x1 = xmid + 1;
        }
        proof {
            lemma_shift_ok(self.x1, self.x2, self.out@);
        }
        while (self.x1 ^ self.x2) & 0xff00_0000 == 0
            invariant
                self.x1 <= self.x2,
                shift(self.x1, self.x2, self.out@) == enc_step(old(self)@, p, bit != 0).to_tuple(),
            decreases 0x1_0000_0000 - (self.x2 - self.x1),
        {
            proof {
                lemma_shift_bits(self.x1, self.x2);
                lemma_shift_step(self.x1, self.x2);
            }
            self.out.push((self.x2 >> 24) as u8);
            self.x1 = self.x1 << 8;
            self.x2 = (self.x2 << 8) | 255;
        }
        proof {
            lemma_shift_bits(self.x1, self.x2);
        }
    }

    /// Flush the low bound (4 bytes, big-endian) and return the stream.
    pub fn finish(self) -> (out: Vec<u8>)
        ensures
            out@ == self@.out + be_bytes(self@.x1),
    {
        let mut out = self.out;
        let x1 = self.x1;
        proof {
            lemma_byte_shifts(x1);
        }
        out.push((x1 >> 24) as u8);
        out.push((x1 >> 16) as u8);
        out.push((x1 >> 8) as u8);
        out.push(x1 as u8);
        assert(out@ =~= self@.out + be_bytes(self@.x1));
        out
    }
}

impl EncState {
    pub open spec fn to_tuple(self) -> (u32, u32, Seq<u8>) {
        (self.x1, self.x2, self.out)
    }
}

/// Arithmetic decoder over a borrowed input stream.
pub struct Decoder<'a> {
    x1: u32,
    x2: u32,
    x: u32,
    inp: &'a [u8],
    pos: usize,
}

impl<'a> Decoder<'a> {
    /// The abstract decoder state.
    pub closed spec fn view(&self) -> DecState {
        DecState { x1: self.x1, x2: self.x2, x: self.x, pos: self.pos as int }
    }

    /// The input stream being decoded.
    pub closed spec fn input(&self) -> Seq<u8> {
        self.inp@
    }

    /// The decoder's interval is normalized and its cursor within the input.
    pub closed spec fn wf(&self) -> bool {
        interval_ok(self.x1, self.x2) && self.pos <= self.inp@.len()
    }

    /// A decoder is well formed exactly when its interval is normalized and
    /// its cursor lies within the input.
    pub proof fn lemma_wf(&self)
        ensures
            self.wf() <==> (interval_ok(self@.x1, self@.x2) && 0 <= self@.pos <= self.input().len()),
    {
    }

    /// Start decoding `inp`: load the first four bytes (255 past the end).
    pub fn new(inp: &'a [u8]) -> (d: Self)
        ensures
            d@ == dec_init(inp@),
            d.input() == inp@,
            d.wf(),
    {
        let mut d = Decoder { x1: 0, x2: 0xffff_ffff, x: 0, inp, pos: 0 };
        let mut k: usize = 0;
        while k < 4
            invariant
                k <= 4,
                d.inp@ == inp@,
                d.x1 == 0,
                d.x2 == 0xffff_ffff,
                d.pos == if k < inp@.len() { k } else { inp@.len() as usize },
                d.x as int == (if k == 0 { 0 } else if k == 1 { byte_at(inp@, 0) } else if k == 2 {
                    byte_at(inp@, 0) * 256 + byte_at(inp@, 1)
                } else if k == 3 {
                    byte_at(inp@, 0) * 0x1_0000 + byte_at(inp@, 1) * 256 + byte_at(inp@, 2)
                } else {
                    window(inp@, 0)
                }),
            decreases 4 - k,
        {
            let c = d.getc();
            proof {
                lemma_shl_or(d.x, c);
                assert(0 <= byte_at(inp@, 0) < 256);
                assert(0 <= byte_at(inp@, 1) < 256);
                assert(0 <= byte_at(inp@, 2) < 256);
                assert(c as int == byte_at(inp@, k as int));
            }
            d.x = (d.x << 8) | c;
            k += 1;
        }
        d
    }

    /// The next input byte, or 255 past the end.
    fn getc(&mut self) -> (c: u32)
        requires
            old(self).pos <= old(self).inp@.len(),
        ensures
            c as int == byte_at(old(self).inp@, old(self).pos as int),
            final(self).pos == if old(self).pos < old(self).inp@.len() { old(self).pos + 1 } else { old(self).pos as int },
            final(self).pos <= final(self).inp@.len(),
            final(self).inp == old(self).inp,
            final(self).x1 == old(self).x1,
            final(self).x2 == old(self).x2,
            final(self).x == old(self).x,
    {
        if self.pos < self.inp.len() {
            let b = self.inp[self.pos] as u32;
            self.pos += 1;
            b
        } else {
            255
        }
    }

    /// Decode one bit with 12-bit probability `p` of a 1.
    pub fn decode(&mut self, p: i32) -> (bit: i32)
        requires
            old(self).wf(),
        ensures
            bit == if dec_bit(old(self)@, p) { 1i32 } else { 0i32 },
            final(self)@ == dec_step(old(self)@, p, old(self).input()),
            final(self).input() == old(self).input(),
            final(self).wf(),
    {
        let xmid = split_point(self.x1, self.x2, p);
        let bit = if self.x <= xmid { 1 } else { 0 };
        proof {
            lemma_narrow(self.x1, self.x2, p, bit != 0);
            lemma_split(self.x1, self.x2, p);
        }
        if bit != 0 {
            self.x2 = xmid;
        } else {
            self.x1 = xmid + 1;
        }
        proof {
            lemma_shift_ok(self.x1, self.x2, Seq::empty());
        }
        while (self.x1 ^ self.x2) & 0xff00_0000 == 0
            invariant
                self.x1 <= self.x2,
                self.pos <= self.inp@.len(),
                self.inp@ == old(self).inp@,
                dec_shift(self.x1, self.x2, self.x, self.pos as int, self.inp@) == dec_step(old(self)@, p, old(self).input()),
            decreases 0x1_0000_0000 - (self.x2 - self.x1),
        {
            proof {
                lemma_shift_bits(self.x1, self.x2);
                lemma_shift_step(self.x1, self.x2);
            }
            self.x1 = self.x1 << 8;
            self.x2 = (self.x2 << 8) | 255;
            let c = self.getc();
            proof {
                lemma_shl_or(self.x, c);
            }
            self.x = (self.x << 8) | c;
        }
        proof {
            lemma_shift_bits(self.x1, self.x2);
            lemma_shift_ok(self.x1, self.x2, Seq::empty());
        }
        bit
    }
}

} // verus!

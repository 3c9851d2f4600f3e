//! The codec. A stream is the input length (8 bytes, little-endian), a flag
//! byte telling whether the x86 filter was applied, and the arithmetic-coded
//! bits of the (filtered) input, most significant bit first, each coded with
//! the context-mixing model's prediction for it.

use vstd::prelude::*;
use crate::algorithm::coder::{
    Encoder, Decoder, DecState, enc_run, enc_output, dec_init, dec_step, dec_bit, mirror,
    lemma_decode_step, lemma_decode_init,
};
use crate::algorithm::filter::{
    e8e9, want_e8e9, e8e9_spec, want_e8e9_spec, lemma_e8e9_len, lemma_e8e9_roundtrip,
};
use crate::algorithm::model::cm::{
    Cm, CmView, cm_init, byte_start_spec, cm_predict_state, cm_prediction, cm_update,
    lemma_update_counters,
};
use crate::algorithm::model::matcher::lemma_mask_le;

verus! {

// ---------------------------------------------------------------------------
// Bits and bytes
// ---------------------------------------------------------------------------

/// Bit `j` of byte `x`, counting from the most significant.
pub open spec fn bit_of(x: u8, j: int) -> bool {
    ((x as u32) >> ((7 - j) as u32)) & 1u32 == 1u32
}

/// The bits of `data`, most significant first.
pub open spec fn bits_of(data: Seq<u8>) -> Seq<bool> {
    Seq::new(8 * data.len(), |k: int| bit_of(data[k / 8], k % 8))
}

/// A bit as the number 0 or 1.
pub open spec fn bit_value(b: bool) -> i32 {
    if b { 1 } else { 0 }
}

/// The number whose binary digits are `bits[start..start + j]`.
pub open spec fn bits_byte(bits: Seq<bool>, start: int, j: nat) -> int
    decreases j,
{
    if j == 0 {
        0
    } else {
        2 * bits_byte(bits, start, (j - 1) as nat) + bit_value(bits[start + j - 1])
    }
}

/// The bytes spelled by `bits`, eight at a time.
pub open spec fn bytes_of(bits: Seq<bool>) -> Seq<u8> {
    Seq::new(bits.len() / 8, |i: int| bits_byte(bits, 8 * i, 8) as u8)
}

/// 2^j for a bit position j in 0..=8.
pub open spec fn pow2_small(j: int) -> int {
    if j <= 0 {
        1
    } else if j == 1 {
        2
    } else if j == 2 {
        4
    } else if j == 3 {
        8
    } else if j == 4 {
        16
    } else if j == 5 {
        32
    } else if j == 6 {
        64
    } else if j == 7 {
        128
    } else {
        256
    }
}

// ---------------------------------------------------------------------------
// The header
// ---------------------------------------------------------------------------

/// The eight little-endian bytes of `n`.
pub open spec fn le_bytes(n: u64) -> Seq<u8> {
    seq![
        (n & 0xff) as u8,
        ((n >> 8u64) & 0xff) as u8,
        ((n >> 16u64) & 0xff) as u8,
        ((n >> 24u64) & 0xff) as u8,
        ((n >> 32u64) & 0xff) as u8,
        ((n >> 40u64) & 0xff) as u8,
        ((n >> 48u64) & 0xff) as u8,
        ((n >> 56u64) & 0xff) as u8,
    ]
}

/// The little-endian number in the first eight bytes of `s`.
pub open spec fn le_u64(s: Seq<u8>) -> u64 {
    (s[0] as u64) | ((s[1] as u64) << 8u64) | ((s[2] as u64) << 16u64) | ((s[3] as u64) << 24u64)
        | ((s[4] as u64) << 32u64) | ((s[5] as u64) << 40u64) | ((s[6] as u64) << 48u64)
        | ((s[7] as u64) << 56u64)
}

/// The flag byte.
pub open spec fn flag_byte(flag: bool) -> u8 {
    if flag { 1 } else { 0 }
}

// ---------------------------------------------------------------------------
// The model's trajectory
// ---------------------------------------------------------------------------

/// The table size hint given to the model for an input of `n` bytes.
pub open spec fn model_cap(n: nat) -> nat {
    if n < 0x7ff_ffff { n } else { 0x7ff_ffff }
}

/// The model, ready for the first byte of an input of `n` bytes.
pub open spec fn model_start(n: nat) -> CmView {
    byte_start_spec(cm_init(model_cap(n)))
}

/// The model after predicting and learning the first `k` bits.
pub open spec fn model_run(start: CmView, bits: Seq<bool>, k: nat) -> CmView
    decreases k,
{
    if k == 0 {
        start
    } else {
        cm_update(cm_predict_state(model_run(start, bits, (k - 1) as nat)), bit_value(bits[k - 1]))
    }
}

/// The model's prediction for each bit.
pub open spec fn probs(start: CmView, bits: Seq<bool>) -> Seq<i32> {
    Seq::new(bits.len(), |k: int| cm_prediction(model_run(start, bits, k as nat)))
}

/// The input after the filter, when the filter is wanted.
pub open spec fn prepared(input: Seq<u8>) -> Seq<u8> {
    if want_e8e9_spec(input) { e8e9_spec(input, true) } else { input }
}

/// The compressed stream of `input`.
pub open spec fn compress_spec(input: Seq<u8>) -> Seq<u8> {
    let n = input.len();
    let bits = bits_of(prepared(input));
    le_bytes(n as u64).push(flag_byte(want_e8e9_spec(input))) + enc_output(probs(model_start(n), bits), bits)
}

/// The model, the decoder and the bits read after `k` decoding steps on
/// stream body `s`.
pub open spec fn dec_run(start: CmView, s: Seq<u8>, k: nat) -> (CmView, DecState, Seq<bool>)
    decreases k,
{
    if k == 0 {
        (start, dec_init(s), Seq::empty())
    } else {
        let (m, d, bits) = dec_run(start, s, (k - 1) as nat);
        let p = cm_prediction(m);
        let b = dec_bit(d, p);
        (cm_update(cm_predict_state(m), bit_value(b)), dec_step(d, p, s), bits.push(b))
    }
}

/// The bytes decoded from stream body `s` for an input of `n` bytes
/// (before the filter is undone).
pub open spec fn decoded(n: nat, s: Seq<u8>) -> Seq<u8> {
    bytes_of(dec_run(model_start(n), s, 8 * n).2)
}

/// The decompressed form of `input` (empty when it is too short to hold a
/// header).
pub open spec fn decompress_spec(input: Seq<u8>) -> Seq<u8> {
    if input.len() < 9 {
        Seq::empty()
    } else {
        let n = le_u64(input) as nat;
        let data = decoded(n, input.subrange(9, input.len() as int));
        if input[8] != 0 { e8e9_spec(data, false) } else { data }
    }
}

// ---------------------------------------------------------------------------
// Lemmas
// ---------------------------------------------------------------------------

proof fn lemma_le_roundtrip(n: u64)
    ensures
        le_u64(le_bytes(n)) == n,
{
    let s = le_bytes(n);
    assert(le_u64(s) == ((n & 0xff) as u8 as u64) | ((((n >> 8u64) & 0xff) as u8 as u64) << 8u64)
        | ((((n >> 16u64) & 0xff) as u8 as u64) << 16u64) | ((((n >> 24u64) & 0xff) as u8 as u64) << 24u64)
        | ((((n >> 32u64) & 0xff) as u8 as u64) << 32u64) | ((((n >> 40u64) & 0xff) as u8 as u64) << 40u64)
        | ((((n >> 48u64) & 0xff) as u8 as u64) << 48u64) | ((((n >> 56u64) & 0xff) as u8 as u64) << 56u64));
    assert(((n & 0xff) as u8 as u64) | ((((n >> 8u64) & 0xff) as u8 as u64) << 8u64)
        | ((((n >> 16u64) & 0xff) as u8 as u64) << 16u64) | ((((n >> 24u64) & 0xff) as u8 as u64) << 24u64)
        | ((((n >> 32u64) & 0xff) as u8 as u64) << 32u64) | ((((n >> 40u64) & 0xff) as u8 as u64) << 40u64)
        | ((((n >> 48u64) & 0xff) as u8 as u64) << 48u64) | ((((n >> 56u64) & 0xff) as u8 as u64) << 56u64) == n)
        by (bit_vector);
}

/// The eight bits of a byte spell it back.
proof fn lemma_byte_bits(x: u8)
    ensures
        bits_byte(seq![bit_of(x, 0), bit_of(x, 1), bit_of(x, 2), bit_of(x, 3), bit_of(x, 4), bit_of(x, 5), bit_of(x, 6), bit_of(x, 7)], 0, 8) == x,
{
    let y = x as u32;
    reveal_with_fuel(bits_byte, 9);
    assert(bit_of(x, 0) == (((y >> 7u32) & 1u32) == 1u32));
    assert(bit_of(x, 1) == (((y >> 6u32) & 1u32) == 1u32));
    assert(bit_of(x, 2) == (((y >> 5u32) & 1u32) == 1u32));
    assert(bit_of(x, 3) == (((y >> 4u32) & 1u32) == 1u32));
    assert(bit_of(x, 4) == (((y >> 3u32) & 1u32) == 1u32));
    assert(bit_of(x, 5) == (((y >> 2u32) & 1u32) == 1u32));
    assert(bit_of(x, 6) == (((y >> 1u32) & 1u32) == 1u32));
    assert(bit_of(x, 7) == (((y >> 0u32) & 1u32) == 1u32));
    assert(2 * (2 * (2 * (2 * (2 * (2 * (2 * (if (y >> 7u32) & 1u32 == 1u32 { 1u32 } else { 0u32 })
        + (if (y >> 6u32) & 1u32 == 1u32 { 1u32 } else { 0u32 }))
        + (if (y >> 5u32) & 1u32 == 1u32 { 1u32 } else { 0u32 }))
        + (if (y >> 4u32) & 1u32 == 1u32 { 1u32 } else { 0u32 }))
        + (if (y >> 3u32) & 1u32 == 1u32 { 1u32 } else { 0u32 }))
        + (if (y >> 2u32) & 1u32 == 1u32 { 1u32 } else { 0u32 }))
        + (if (y >> 1u32) & 1u32 == 1u32 { 1u32 } else { 0u32 }))
        + (if (y >> 0u32) & 1u32 == 1u32 { 1u32 } else { 0u32 }) == y) by (bit_vector)
        requires y < 256;
}

/// `bits_byte` reads only the bits in its window.
proof fn lemma_bits_byte_local(a: Seq<bool>, b: Seq<bool>, sa: int, sb: int, j: nat)
    requires
        forall|u: int| sa <= u < sa + j ==> #[trigger] a[u] == b[u - sa + sb],
    ensures
        bits_byte(a, sa, j) == bits_byte(b, sb, j),
    decreases j,
{
    if j > 0 {
        lemma_bits_byte_local(a, b, sa, sb, (j - 1) as nat);
        assert(a[sa + j - 1] == b[sb + j - 1]);
    }
}

/// A byte's bits read back give the byte.
proof fn lemma_bytes_of_bits(data: Seq<u8>)
    ensures
        bytes_of(bits_of(data)) == data,
{
    let bits = bits_of(data);
    assert forall|i: int| 0 <= i < data.len() implies #[trigger] bytes_of(bits)[i] == data[i] by {
        let x = data[i];
        let w = seq![bit_of(x, 0), bit_of(x, 1), bit_of(x, 2), bit_of(x, 3), bit_of(x, 4), bit_of(x, 5), bit_of(x, 6), bit_of(x, 7)];
        assert forall|u: int| 8 * i <= u < 8 * i + 8 implies #[trigger] bits[u] == w[u - 8 * i + 0] by {
            assert(u / 8 == i);
            assert(u % 8 == u - 8 * i);
        }
        lemma_bits_byte_local(bits, w, 8 * i, 0, 8);
        lemma_byte_bits(x);
    }
    assert(bytes_of(bits) =~= data);
}

/// The bits read so far only grow.
proof fn lemma_dec_run_bits(start: CmView, s: Seq<u8>, k: nat)
    ensures
        dec_run(start, s, k).2.len() == k,
    decreases k,
{
    if k > 0 {
        lemma_dec_run_bits(start, s, (k - 1) as nat);
    }
}

/// Decoding the encoder's own stream retraces the encoder: after `k` steps
/// the decoder mirrors the encoder, the model is where the encoder's model
/// was, and the bits read are the first `k` bits coded.
pub proof fn lemma_decode_mirrors(start: CmView, bits: Seq<bool>, k: nat)
    requires
        k <= bits.len(),
    ensures
        ({
            let ps = probs(start, bits);
            let s = enc_output(ps, bits);
            let r = dec_run(start, s, k);
            &&& r.0 == model_run(start, bits, k)
            &&& r.1 == mirror(enc_run(ps, bits, k), s)
            &&& r.2 == bits.subrange(0, k as int)
        }),
    decreases k,
{
    let ps = probs(start, bits);
    let s = enc_output(ps, bits);
    if k == 0 {
        lemma_decode_init(ps, bits);
        assert(bits.subrange(0, 0) =~= Seq::<bool>::empty());
    } else {
        let k1 = (k - 1) as nat;
        lemma_decode_mirrors(start, bits, k1);
        lemma_decode_step(ps, bits, k1);
        let r = dec_run(start, s, k1);
        assert(ps[k1 as int] == cm_prediction(model_run(start, bits, k1)));
        assert(r.2.push(bits[k1 as int]) =~= bits.subrange(0, k as int));
    }
}

/// Losslessness: decompressing the compressed form of any input of at most
/// 2^32 - 1 bytes gives the input back.
pub proof fn lemma_roundtrip(x: Seq<u8>)
    requires
        x.len() <= 0xffff_ffff,
    ensures
        compress_spec(x).len() >= 9,
        le_u64(compress_spec(x)) == x.len(),
        decompress_spec(compress_spec(x)) == x,
{
    let n = x.len();
    let flag = want_e8e9_spec(x);
    let data = prepared(x);
    lemma_e8e9_len(x, true);
    let bits = bits_of(data);
    let start = model_start(n);
    let ps = probs(start, bits);
    let body = enc_output(ps, bits);
    let head = le_bytes(n as u64).push(flag_byte(flag));
    let c = compress_spec(x);
    assert(c == head + body);
    assert(c.subrange(0, 8) =~= le_bytes(n as u64));
    lemma_le_roundtrip(n as u64);
    assert(le_u64(c) == le_u64(le_bytes(n as u64)));
    assert(c[8] == flag_byte(flag));
    assert(c.subrange(9, c.len() as int) =~= body);
    lemma_decode_mirrors(start, bits, bits.len());
    assert(bits.subrange(0, bits.len() as int) =~= bits);
    lemma_bytes_of_bits(data);
    assert(decoded(n, body) == data);
    if flag {
        lemma_e8e9_roundtrip(x);
    }
}

// ---------------------------------------------------------------------------
// Executable codec
// ---------------------------------------------------------------------------

fn push_le64(out: &mut Vec<u8>, n: u64)
    ensures
        final(out)@ == old(out)@ + le_bytes(n),
{
    out.push((n & 0xff) as u8);
    out.push(((n >> 8) & 0xff) as u8);
    out.push(((n >> 16) & 0xff) as u8);
    out.push(((n >> 24) & 0xff) as u8);
    out.push(((n >> 32) & 0xff) as u8);
    out.push(((n >> 40) & 0xff) as u8);
    out.push(((n >> 48) & 0xff) as u8);
    out.push(((n >> 56) & 0xff) as u8);
    assert(out@ =~= old(out)@ + le_bytes(n));
}

fn read_le64(input: &[u8]) -> (n: u64)
    requires
        input@.len() >= 8,
    ensures
        n == le_u64(input@),
{
    (input[0] as u64) | ((input[1] as u64) << 8) | ((input[2] as u64) << 16) | ((input[3] as u64) << 24)
        | ((input[4] as u64) << 32) | ((input[5] as u64) << 40) | ((input[6] as u64) << 48)
        | ((input[7] as u64) << 56)
}

/// Decode one bit: predict, read the bit under the prediction, learn it.
fn decode_bit(cm: &mut Cm, dec: &mut Decoder, Ghost(start): Ghost<CmView>, Ghost(s): Ghost<Seq<u8>>, Ghost(k): Ghost<nat>) -> (bit: i32)
    requires
        old(cm).wf(),
        old(dec).wf(),
        old(dec).input() == s,
        old(cm)@ == dec_run(start, s, k).0,
        old(dec)@ == dec_run(start, s, k).1,
        old(cm)@.hist.bitcount < 7 || old(cm)@.hist.pos < 0xffff_ffff,
    ensures
        final(cm).wf(),
        final(dec).wf(),
        final(dec).input() == s,
        final(cm)@ == dec_run(start, s, k + 1).0,
        final(dec)@ == dec_run(start, s, k + 1).1,
        dec_run(start, s, k + 1).2 == dec_run(start, s, k).2.push(bit == 1),
        0 <= bit <= 1,
        final(cm)@.hist.bitcount == (if old(cm)@.hist.bitcount == 7 { 0 } else { old(cm)@.hist.bitcount + 1 }),
        final(cm)@.hist.pos == (if old(cm)@.hist.bitcount == 7 { old(cm)@.hist.pos + 1 } else { old(cm)@.hist.pos as int }),
{
    let ghost before = cm@;
    proof {
        cm.lemma_bitcount();
    }
    let p = cm.predict();
    let bit = dec.decode(p);
    proof {
        lemma_update_counters(before, bit);
    }
    cm.update(bit, p);
    bit
}

/// Compress `input` into a self-describing stream.
pub fn compress(input: &[u8]) -> (out: Vec<u8>)
    requires
        input@.len() <= 0xffff_ffff,
    ensures
        out@ == compress_spec(input@),
{
    let n = input.len();
    let mut data = vstd::slice::slice_to_vec(input);
    let flag = want_e8e9(data.as_slice());
    if flag {
        e8e9(&mut data, true);
    }
    proof {
        lemma_e8e9_len(input@, true);
    }
    assert(data@ == prepared(input@));
    let mut out: Vec<u8> = Vec::new();
    push_le64(&mut out, n as u64);
    out.push(if flag { 1u8 } else { 0u8 });
    let cap: usize = if n < 0x7ff_ffff { n } else { 0x7ff_ffff };
    let mut cm = Cm::new(cap);
    cm.byte_start();
    let mut enc = Encoder::new();
    let ghost start = cm@;
    let ghost bits = bits_of(data@);
    let ghost ps = probs(start, bits);
    assert(start == model_start(n as nat));
    let mut i: usize = 0;
    while i < n
        invariant
            data@.len() == n,
            n <= 0xffff_ffff,
            i <= n,
            bits == bits_of(data@),
            ps == probs(start, bits),
            cm.wf(),
            enc.wf(),
            cm@ == model_run(start, bits, (8 * i) as nat),
            cm@.hist.pos == i,
            cm@.hist.bitcount == 0,
            enc@ == enc_run(ps, bits, (8 * i) as nat),
        decreases n - i,
    {
        let ch = data[i];
        let mut j: u32 = 0;
        while j < 8
            invariant
                data@.len() == n,
                n <= 0xffff_ffff,
                i < n,
                j <= 8,
                ch == data@[i as int],
                bits == bits_of(data@),
                ps == probs(start, bits),
                cm.wf(),
                enc.wf(),
                cm@ == model_run(start, bits, (8 * i + j) as nat),
                cm@.hist.pos == (if j == 8 { i + 1 } else { i as int }),
                cm@.hist.bitcount == (if j == 8 { 0 } else { j as int }),
                enc@ == enc_run(ps, bits, (8 * i + j) as nat),
            decreases 8 - j,
        {
            let ghost k: int = 8 * i + j;
            let v = ((ch as u32) >> (7 - j)) & 1;
            proof {
                lemma_mask_le((ch as u32) >> (7 - j), 1);
                assert(k / 8 == i && k % 8 == j);
                assert(bits[k] == bit_of(ch, j as int));
            }
            let bit = v as i32;
            assert(bit == bit_value(bits[k]));
            let ghost before = cm@;
            proof {
                cm.lemma_bitcount();
            }
            let p = cm.predict();
            assert(p == ps[k]);
            enc.encode(p, bit);
            proof {
                lemma_update_counters(before, bit);
            }
            cm.update(bit, p);
            j += 1;
        }
        i += 1;
    }
    let mut tail = enc.finish();
    assert(8 * n == bits.len());
    out.append(&mut tail);
    out
}

/// Decompress a stream made by `compress`. A stream shorter than its
/// header gives the empty output.
pub fn decompress(input: &[u8]) -> (out: Vec<u8>)
    requires
        input@.len() < 9 || le_u64(input@) <= 0xffff_ffff,
    ensures
        out@ == decompress_spec(input@),
{
    if input.len() < 9 {
        return Vec::new();
    }
    let n64 = read_le64(input);
    let n = n64 as usize;
    let flag = input[8] != 0;
    let cap: usize = if n < 0x7ff_ffff { n } else { 0x7ff_ffff };
    let mut cm = Cm::new(cap);
    cm.byte_start();
    let body = vstd::slice::slice_subrange(input, 9, input.len());
    let mut dec = Decoder::new(body);
    let ghost start = cm@;
    assert(start == model_start(n as nat));
    let mut data: Vec<u8> = Vec::new();
    let mut i: usize = 0;
    while i < n
        invariant
            n <= 0xffff_ffff,
            i <= n,
            dec.input() == body@,
            cm.wf(),
            dec.wf(),
            ({
                let r = dec_run(start, body@, (8 * i) as nat);
                &&& cm@ == r.0
                &&& dec@ == r.1
                &&& data@.len() == i
                &&& forall|t: int| 0 <= t < i ==> #[trigger] data@[t] == bits_byte(r.2, 8 * t, 8) as u8
            }),
            cm@.hist.pos == i,
            cm@.hist.bitcount == 0,
        decreases n - i,
    {
        let mut byte: i32 = 0;
        let mut j: u32 = 0;
        let ghost r0 = dec_run(start, body@, (8 * i) as nat);
        proof {
            lemma_dec_run_bits(start, body@, (8 * i) as nat);
        }
        while j < 8
            invariant
                n <= 0xffff_ffff,
                i < n,
                j <= 8,
                dec.input() == body@,
                cm.wf(),
                dec.wf(),
                r0 == dec_run(start, body@, (8 * i) as nat),
                r0.2.len() == 8 * i,
                ({
                    let r = dec_run(start, body@, (8 * i + j) as nat);
                    &&& cm@ == r.0
                    &&& dec@ == r.1
                    &&& r.2.len() == 8 * i + j
                    &&& r.2.subrange(0, 8 * i) == r0.2
                    &&& byte == bits_byte(r.2, 8 * i, j as nat)
                }),
                0 <= byte < pow2_small(j as int),
                cm@.hist.pos == (if j == 8 { i + 1 } else { i as int }),
                cm@.hist.bitcount == (if j == 8 { 0 } else { j as int }),
            decreases 8 - j,
        {
            let ghost k = (8 * i + j) as nat;
            let ghost r = dec_run(start, body@, k);
            let bit = decode_bit(&mut cm, &mut dec, Ghost(start), Ghost(body@), Ghost(k));
            proof {
                let r1 = dec_run(start, body@, k + 1);
                assert(r1.2.subrange(0, 8 * i) =~= r0.2);
                lemma_bits_byte_local(r1.2, r.2, 8 * i, 8 * i, j as nat);
                assert((byte << 1i32) | bit == 2 * byte + bit) by (bit_vector)
                    requires 0 <= byte < 128, 0 <= bit <= 1;
            }
            byte = (byte << 1) | bit;
            j += 1;
        }
        proof {
            let r1 = dec_run(start, body@, (8 * i + 8) as nat);
            assert forall|t: int| 0 <= t < i implies #[trigger] data@[t] == bits_byte(r1.2, 8 * t, 8) as u8 by {
                lemma_bits_byte_local(r1.2, r0.2, 8 * t, 8 * t, 8);
            }
        }
        data.push(byte as u8);
        i += 1;
    }
    proof {
        let r = dec_run(start, body@, (8 * n) as nat);
        lemma_dec_run_bits(start, body@, (8 * n) as nat);
        assert(data@ =~= bytes_of(r.2));
        assert(body@ == input@.subrange(9, input@.len() as int));
    }
    if flag {
        e8e9(&mut data, false);
    }
    data
}

} // verus!

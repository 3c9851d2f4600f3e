//! Workloads for the complexity meters: compress a prefix of a fixed corpus,
//! or a fixed stream of high-entropy bytes (which touches many distinct
//! context-table slots, unlike repetitive text).

use vstd::prelude::*;
use crate::algorithm::codec::{compress, compress_spec};

verus! {

/// The splitmix64 increment.
pub const GOLDEN: u64 = 0x9E37_79B9_7F4A_7C15;

/// The generator state before producing byte `k`'s word: `GOLDEN` advanced
/// by `GOLDEN` `k + 1` times, modulo 2^64.
pub open spec fn mix_state(k: nat) -> u64
    decreases k,
{
    if k == 0 {
        vstd::wrapping::u64_specs::wrapping_add(GOLDEN, GOLDEN)
    } else {
        vstd::wrapping::u64_specs::wrapping_add(mix_state((k - 1) as nat), GOLDEN)
    }
}

/// The splitmix64 output function.
pub open spec fn mix_out(x: u64) -> u64 {
    let z1 = vstd::wrapping::u64_specs::wrapping_mul(x ^ (x >> 30u64), 0xBF58_476D_1CE4_E5B9);
    let z2 = vstd::wrapping::u64_specs::wrapping_mul(z1 ^ (z1 >> 27u64), 0x94D0_49BB_1331_11EB);
    z2 ^ (z2 >> 31u64)
}

/// Byte `k` of the high-entropy stream.
pub open spec fn entropy_byte(k: nat) -> u8 {
    (mix_out(mix_state(k)) >> 24u64) as u8
}

/// The first `n` bytes of the high-entropy stream.
pub open spec fn entropy_stream(n: nat) -> Seq<u8> {
    Seq::new(n, |k: int| entropy_byte(k as nat))
}

/// The first `n` bytes of the high-entropy stream.
pub fn high_entropy(n: usize) -> (buf: Vec<u8>)
    ensures
        buf@ == entropy_stream(n as nat),
{
    let mut buf: Vec<u8> = Vec::new();
    let mut x: u64 = GOLDEN;
    let mut k: usize = 0;
    while k < n
        invariant
            k <= n,
            buf@.len() == k,
            x == (if k == 0 { GOLDEN } else { mix_state((k - 1) as nat) }),
            forall|j: int| 0 <= j < k ==> #[trigger] buf@[j] == entropy_byte(j as nat),
        decreases n - k,
    {
        x = x.wrapping_add(GOLDEN);
        let mut z = x;
        z = (z ^ (z >> 30)).wrapping_mul(0xBF58_476D_1CE4_E5B9);
        z = (z ^ (z >> 27)).wrapping_mul(0x94D0_49BB_1331_11EB);
        z = z ^ (z >> 31);
        buf.push(#[verifier::truncate] ((z >> 24) as u8));
        k += 1;
    }
    assert(buf@ =~= entropy_stream(n as nat));
    buf
}

/// The compressed size (modulo 2^32) of the first `n` bytes of `corpus`
/// (all of it when shorter).
pub fn compress_prefix(corpus: &[u8], n: u32) -> (r: u32)
    requires
        corpus@.len() <= 0xffff_ffff,
    ensures
        r == (compress_spec(corpus@.subrange(0, if (n as int) < corpus@.len() { n as int } else { corpus@.len() as int })).len() as u32),
{
    let m: usize = if (n as usize) < corpus.len() { n as usize } else { corpus.len() };
    let prefix = vstd::slice::slice_subrange(corpus, 0, m);
    let c = compress(prefix);
    #[verifier::truncate] (c.len() as u32)
}

/// The compressed size (modulo 2^32) of `n` bytes of the high-entropy stream.
pub fn compress_prefix_he(n: u32) -> (r: u32)
    ensures
        r == (compress_spec(entropy_stream(n as nat)).len() as u32),
{
    let buf = high_entropy(n as usize);
    let c = compress(buf.as_slice());
    #[verifier::truncate] (c.len() as u32)
}

} // verus!

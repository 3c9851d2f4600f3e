//! Reversible x86 BCJ filter: rewrite the 32-bit operands of E8 / E9
//! (call / jmp) opcodes between relative and absolute form.

use vstd::prelude::*;

verus! {

/// Whether byte `b` is an E8 or E9 opcode.
pub open spec fn is_branch(b: u8) -> bool {
    b == 0xE8 || b == 0xE9
}

/// The little-endian 32-bit value stored at `s[i..i + 4]`.
pub open spec fn le32(s: Seq<u8>, i: int) -> int {
    s[i] + s[i + 1] * 256 + s[i + 2] * 0x1_0000 + s[i + 3] * 0x100_0000
}

/// The operand of the branch at `i`, rewritten: the absolute target
/// `v + (i + 5)` when encoding, the relative `v - (i + 5)` when decoding,
/// both modulo 2^32.
pub open spec fn rewrite(v: int, i: int, enc: bool) -> int {
    if enc {
        (v + (i + 5)) % 0x1_0000_0000
    } else {
        (v - (i + 5)) % 0x1_0000_0000
    }
}

/// `s` with the operand of the branch at `i` rewritten.
pub open spec fn patch(s: Seq<u8>, i: int, enc: bool) -> Seq<u8> {
    let nv = rewrite(le32(s, i + 1), i, enc);
    s.update(i + 1, (nv % 256) as u8)
        .update(i + 2, ((nv / 256) % 256) as u8)
        .update(i + 3, ((nv / 0x1_0000) % 256) as u8)
        .update(i + 4, ((nv / 0x100_0000) % 256) as u8)
}

/// The filter applied from position `i` on: each branch opcode found has its
/// operand rewritten and is skipped together with the operand.
pub open spec fn filter_from(s: Seq<u8>, enc: bool, i: int) -> Seq<u8>
    decreases s.len() - i,
{
    if 0 <= i && i + 4 < s.len() {
        if is_branch(s[i]) {
            filter_from(patch(s, i, enc), enc, i + 5)
        } else {
            filter_from(s, enc, i + 1)
        }
    } else {
        s
    }
}

/// The whole filter (`enc` selects the direction).
pub open spec fn e8e9_spec(s: Seq<u8>, enc: bool) -> Seq<u8> {
    filter_from(s, enc, 0)
}

/// The number of branch opcodes among `s[0..k]`.
pub open spec fn branch_count(s: Seq<u8>, k: int) -> int
    decreases k,
{
    if k <= 0 {
        0
    } else {
        branch_count(s, k - 1) + if is_branch(s[k - 1]) { 1int } else { 0int }
    }
}

/// Whether the input looks like x86 code: an MZ or ELF header, or at least
/// one branch opcode per 200 bytes within the first MiB.
pub open spec fn want_e8e9_spec(s: Seq<u8>) -> bool {
    let n = s.len();
    let lim = if n < 0x10_0000 { n as int } else { 0x10_0000 };
    if n >= 4 && s[0] == 0x4D && s[1] == 0x5A {
        true
    } else if n >= 4 && s[0] == 0x7f && s[1] == 0x45 && s[2] == 0x4C && s[3] == 0x46 {
        true
    } else {
        branch_count(s, lim) * 200 > lim
    }
}

proof fn lemma_patch_facts(s: Seq<u8>, i: int, enc: bool)
    requires
        0 <= i,
        i + 4 < s.len(),
    ensures
        patch(s, i, enc).len() == s.len(),
        forall|k: int| 0 <= k < s.len() && !(i + 1 <= k <= i + 4) ==> patch(s, i, enc)[k] == s[k],
        le32(patch(s, i, enc), i + 1) == rewrite(le32(s, i + 1), i, enc),
{
    let nv = rewrite(le32(s, i + 1), i, enc);
    assert(0 <= nv < 0x1_0000_0000);
    lemma_bytes_roundtrip(nv as u32);
    let t = patch(s, i, enc);
    assert(t[i + 1] == nv % 256);
    assert(t[i + 2] == (nv / 256) % 256);
    assert(t[i + 3] == (nv / 0x1_0000) % 256);
    assert(t[i + 4] == (nv / 0x100_0000) % 256);
}

proof fn lemma_bytes_roundtrip(x: u32)
    ensures
        x % 256 + ((x / 256) % 256) * 256 + ((x / 0x1_0000) % 256) * 0x1_0000 + ((x / 0x100_0000) % 256) * 0x100_0000 == x,
{
    assert(x % 256 + ((x / 256) % 256) * 256 + ((x / 0x1_0000) % 256) * 0x1_0000 + ((x / 0x100_0000) % 256) * 0x100_0000 == x) by (bit_vector);
}

proof fn lemma_le32_bytes(b1: u8, b2: u8, b3: u8, b4: u8)
    ensures
        ({
            let x = b1 as u32 + (b2 as u32) * 256 + (b3 as u32) * 0x1_0000 + (b4 as u32) * 0x100_0000;
            &&& x % 256 == b1
            &&& (x / 256) % 256 == b2
            &&& (x / 0x1_0000) % 256 == b3
            &&& (x / 0x100_0000) % 256 == b4
        }),
{
    assert({
        let x = b1 as u32 + (b2 as u32) * 256 + (b3 as u32) * 0x1_0000 + (b4 as u32) * 0x100_0000;
        &&& x % 256 == b1
        &&& (x / 256) % 256 == b2
        &&& (x / 0x1_0000) % 256 == b3
        &&& (x / 0x100_0000) % 256 == b4
    }) by (bit_vector);
}

proof fn lemma_rewrite_inverse(v: int, i: int, enc: bool)
    requires
        0 <= v < 0x1_0000_0000,
    ensures
        rewrite(rewrite(v, i, enc), i, !enc) == v,
{
    let m = 0x1_0000_0000int;
    let y = i + 5;
    if enc {
        let x = v + y;
        vstd::arithmetic::div_mod::lemma_sub_mod_noop(x, y, m);
        vstd::arithmetic::div_mod::lemma_sub_mod_noop_right(x % m, y, m);
    } else {
        let x = v - y;
        vstd::arithmetic::div_mod::lemma_add_mod_noop(x, y, m);
        vstd::arithmetic::div_mod::lemma_add_mod_noop_right(x % m, y, m);
    }
    vstd::arithmetic::div_mod::lemma_small_mod(v as nat, m as nat);
}

/// Rewriting an operand one way and back gives it back.
proof fn lemma_patch_inverse(s: Seq<u8>, i: int, enc: bool)
    requires
        0 <= i,
        i + 4 < s.len(),
    ensures
        patch(patch(s, i, enc), i, !enc) == s,
{
    let t = patch(s, i, enc);
    lemma_patch_facts(s, i, enc);
    lemma_patch_facts(t, i, !enc);
    let u = patch(t, i, !enc);
    let v = le32(s, i + 1);
    lemma_le32_bytes(s[i + 1], s[i + 2], s[i + 3], s[i + 4]);
    lemma_rewrite_inverse(v, i, enc);
    assert(le32(u, i + 1) == v);
    lemma_le32_bytes(u[i + 1], u[i + 2], u[i + 3], u[i + 4]);
    assert(u =~= s);
}

/// The filter from `i` preserves the length and leaves bytes before `i` alone.
proof fn lemma_filter_frame(s: Seq<u8>, enc: bool, i: int)
    requires
        0 <= i,
    ensures
        filter_from(s, enc, i).len() == s.len(),
        forall|k: int| 0 <= k <= i && k < s.len() ==> #[trigger] filter_from(s, enc, i)[k] == s[k],
    decreases s.len() - i,
{
    if i + 4 < s.len() {
        if is_branch(s[i]) {
            lemma_patch_facts(s, i, enc);
            lemma_filter_frame(patch(s, i, enc), enc, i + 5);
        } else {
            lemma_filter_frame(s, enc, i + 1);
        }
    }
}

/// Skipping over bytes that are not branch opcodes does not change what the
/// filter does.
proof fn lemma_filter_skip(s: Seq<u8>, enc: bool, k: int, i: int)
    requires
        0 <= k <= i,
        i + 4 < s.len(),
        forall|j: int| k <= j < i ==> !is_branch(#[trigger] s[j]),
    ensures
        filter_from(s, enc, k) == filter_from(s, enc, i),
    decreases i - k,
{
    if k < i {
        assert(!is_branch(s[k]));
        lemma_filter_skip(s, enc, k + 1, i);
    }
}

/// The filter moves the operand of the first branch opcode by its position:
/// for a call or jump at any position `i` with no branch opcode before it,
/// encoding turns its 32-bit operand `v` into `(v + i + 5) mod 2^32` and
/// decoding into `(v - i - 5) mod 2^32`, and every byte before the operand is
/// kept.
pub proof fn lemma_first_branch_moved(s: Seq<u8>, i: int, enc: bool)
    requires
        0 <= i,
        i + 4 < s.len(),
        is_branch(s[i]),
        forall|j: int| 0 <= j < i ==> !is_branch(#[trigger] s[j]),
    ensures
        e8e9_spec(s, enc).len() == s.len(),
        forall|j: int| 0 <= j <= i ==> #[trigger] e8e9_spec(s, enc)[j] == s[j],
        enc ==> le32(e8e9_spec(s, enc), i + 1) == (le32(s, i + 1) + i + 5) % 0x1_0000_0000,
        !enc ==> le32(e8e9_spec(s, enc), i + 1) == (le32(s, i + 1) - i - 5) % 0x1_0000_0000,
{
    lemma_filter_skip(s, enc, 0, i);
    let t = patch(s, i, enc);
    lemma_patch_facts(s, i, enc);
    lemma_filter_frame(t, enc, i + 5);
    let r = filter_from(t, enc, i + 5);
    assert(r[i + 1] == t[i + 1] && r[i + 2] == t[i + 2] && r[i + 3] == t[i + 3] && r[i + 4] == t[i + 4]);
    assert(le32(r, i + 1) == le32(t, i + 1));
    assert forall|j: int| 0 <= j <= i implies #[trigger] e8e9_spec(s, enc)[j] == s[j] by {
        assert(r[j] == t[j]);
    }
}

/// The filter from `i` reads only bytes at or after `i`.
proof fn lemma_filter_local(x: Seq<u8>, y: Seq<u8>, enc: bool, i: int)
    requires
        0 <= i,
        x.len() == y.len(),
        forall|k: int| i <= k < x.len() ==> x[k] == y[k],
    ensures
        forall|k: int| i <= k < x.len() ==> #[trigger] filter_from(x, enc, i)[k] == filter_from(y, enc, i)[k],
    decreases x.len() - i,
{
    if i + 4 < x.len() {
        if is_branch(x[i]) {
            lemma_patch_facts(x, i, enc);
            lemma_patch_facts(y, i, enc);
            let px = patch(x, i, enc);
            let py = patch(y, i, enc);
            assert(le32(x, i + 1) == le32(y, i + 1));
            assert forall|k: int| i + 5 <= k < x.len() implies px[k] == py[k] by {}
            lemma_filter_local(px, py, enc, i + 5);
            lemma_filter_frame(px, enc, i + 5);
            lemma_filter_frame(py, enc, i + 5);
            assert forall|k: int| i <= k < x.len() implies #[trigger] filter_from(x, enc, i)[k] == filter_from(y, enc, i)[k] by {
                if k < i + 5 {
                    assert(px[k] == py[k]);
                }
            }
        } else {
            lemma_filter_local(x, y, enc, i + 1);
            lemma_filter_frame(x, enc, i + 1);
            lemma_filter_frame(y, enc, i + 1);
        }
    }
}

/// Filtering from `i` one way and back gives the input back.
proof fn lemma_filter_inverse_from(s: Seq<u8>, i: int, enc: bool)
    requires
        0 <= i,
    ensures
        filter_from(filter_from(s, enc, i), !enc, i) == s,
    decreases s.len() - i,
{
    if i + 4 < s.len() {
        if is_branch(s[i]) {
            let s1 = patch(s, i, enc);
            lemma_patch_facts(s, i, enc);
            let t = filter_from(s1, enc, i + 5);
            lemma_filter_frame(s1, enc, i + 5);
            assert(t[i] == s[i]);
            assert(filter_from(s, enc, i) == t);
            lemma_patch_facts(t, i, !enc);
            let u = patch(t, i, !enc);
            let w = filter_from(s, enc, i + 5);
            lemma_filter_frame(s, enc, i + 5);
            lemma_filter_local(s1, s, enc, i + 5);
            lemma_patch_inverse(s, i, enc);
            assert(le32(t, i + 1) == le32(s1, i + 1));
            assert forall|k: int| 0 <= k < s.len() implies u[k] == w[k] by {
                if i + 1 <= k <= i + 4 {
                    lemma_patch_facts(s1, i, !enc);
                    assert(u[k] == patch(s1, i, !enc)[k]);
                } else if k < i + 5 {
                    assert(u[k] == t[k]);
                }
            }
            assert(u =~= w);
            lemma_filter_inverse_from(s, i + 5, enc);
        } else {
            lemma_filter_frame(s, enc, i + 1);
            lemma_filter_inverse_from(s, i + 1, enc);
        }
    }
}

/// The filter keeps the length of its input.
pub proof fn lemma_e8e9_len(s: Seq<u8>, enc: bool)
    ensures
        e8e9_spec(s, enc).len() == s.len(),
{
    lemma_filter_frame(s, enc, 0);
}

/// The filter is reversible both ways: decoding the encoded bytes gives them
/// back, and so does encoding the decoded bytes.
pub proof fn lemma_e8e9_roundtrip(s: Seq<u8>)
    ensures
        e8e9_spec(e8e9_spec(s, true), false) == s,
        e8e9_spec(e8e9_spec(s, false), true) == s,
{
    lemma_filter_inverse_from(s, 0, true);
    lemma_filter_inverse_from(s, 0, false);
}

proof fn lemma_le32_bits(b1: u8, b2: u8, b3: u8, b4: u8)
    ensures
        ((b1 as i32 | (b2 as i32) << 8i32 | (b3 as i32) << 16i32 | (b4 as i32) << 24i32) as u32) as int
            == b1 + b2 * 256 + b3 * 0x1_0000 + b4 * 0x100_0000,
{
    assert(((b1 as i32 | (b2 as i32) << 8i32 | (b3 as i32) << 16i32 | (b4 as i32) << 24i32) as u32)
        == (b1 as u32) + (b2 as u32) * 256 + (b3 as u32) * 0x1_0000 + (b4 as u32) * 0x100_0000) by (bit_vector);
}

proof fn lemma_bytes_of(nv: i32)
    ensures
        nv as u8 == ((nv as u32) % 256) as u8,
        (nv >> 8i32) as u8 == ((nv as u32 / 256) % 256) as u8,
        (nv >> 16i32) as u8 == ((nv as u32 / 0x1_0000) % 256) as u8,
        (nv >> 24i32) as u8 == ((nv as u32 / 0x100_0000) % 256) as u8,
{
    assert((nv as u8 == ((nv as u32) % 256) as u8)
        && ((nv >> 8i32) as u8 == ((nv as u32 / 256) % 256) as u8)
        && ((nv >> 16i32) as u8 == ((nv as u32 / 0x1_0000) % 256) as u8)
        && ((nv >> 24i32) as u8 == ((nv as u32 / 0x100_0000) % 256) as u8)) by (bit_vector);
}

proof fn lemma_wrapping(v: i32, p: i32)
    ensures
        (vstd::wrapping::i32_specs::wrapping_add(v, p) as u32) as int == ((v as u32) as int + (p as u32) as int) % 0x1_0000_0000,
        (vstd::wrapping::i32_specs::wrapping_sub(v, p) as u32) as int == ((v as u32) as int - (p as u32) as int) % 0x1_0000_0000,
{
    assert(((vstd::wrapping::i32_specs::wrapping_add(v, p) as u32) == ((v as u32) as int + (p as u32) as int) % 0x1_0000_0000)
        && ((vstd::wrapping::i32_specs::wrapping_sub(v, p) as u32) == ((v as u32) as int - (p as u32) as int) % 0x1_0000_0000)) by (bit_vector);
}

proof fn lemma_pos_bits(i: usize)
    ensures
        (vstd::wrapping::i32_specs::wrapping_add(i as i32, 5) as u32) as int == (i + 5) % 0x1_0000_0000,
{
    assert((vstd::wrapping::i32_specs::wrapping_add(i as i32, 5) as u32) == (i as int + 5) % 0x1_0000_0000) by (bit_vector);
}

/// The rewritten operand of a branch at `i` whose operand bytes are `b1..b4`.
#[verifier::spinoff_prover]
fn rewrite_operand(b1: u8, b2: u8, b3: u8, b4: u8, i: usize, enc: bool) -> (nv: i32)
    ensures
        (nv as u32) as int == rewrite(b1 + b2 * 256 + b3 * 0x1_0000 + b4 * 0x100_0000, i as int, enc),
{
    let v = b1 as i32 | (b2 as i32) << 8 | (b3 as i32) << 16 | (b4 as i32) << 24;
    let p = (#[verifier::truncate] (i as i32)).wrapping_add(5);
    let nv = if enc { v.wrapping_add(p) } else { v.wrapping_sub(p) };
    proof {
        lemma_le32_bits(b1, b2, b3, b4);
        lemma_pos_bits(i);
        lemma_wrapping(v, p);
        let a = (v as u32) as int;
        let b = i as int + 5;
        let m = 0x1_0000_0000int;
        assert((p as u32) as int == b % m);
        vstd::arithmetic::div_mod::lemma_add_mod_noop_right(a, b, m);
        vstd::arithmetic::div_mod::lemma_sub_mod_noop_right(a, b, m);
    }
    nv
}

/// Rewrite the operand of the branch opcode at `i` in place.
fn patch_at(b: &mut Vec<u8>, i: usize, enc: bool)
    requires
        i + 4 < old(b)@.len(),
    ensures
        final(b)@ == patch(old(b)@, i as int, enc),
{
    let ghost s = b@;
    let n = b.len();
    assert(i + 4 < n);
    let nv = rewrite_operand(b[i + 1], b[i + 2], b[i + 3], b[i + 4], i, enc);
    proof {
        lemma_bytes_of(nv);
    }
    b.set(i + 1, #[verifier::truncate] (nv as u8));
    b.set(i + 2, #[verifier::truncate] ((nv >> 8) as u8));
    b.set(i + 3, #[verifier::truncate] ((nv >> 16) as u8));
    b.set(i + 4, #[verifier::truncate] ((nv >> 24) as u8));
    assert(b@ =~= patch(s, i as int, enc));
}

/// Apply the BCJ filter in place (`enc` rewrites relative operands to
/// absolute ones; `!enc` reverses that).
pub fn e8e9(b: &mut Vec<u8>, enc: bool)
    ensures
        final(b)@ == e8e9_spec(old(b)@, enc),
{
    let n = b.len();
    if n < 5 {
        return;
    }
    let mut i: usize = 0;
    while i < n - 4
        invariant
            n == b@.len(),
            n >= 5,
            i <= n,
            filter_from(b@, enc, i as int) == e8e9_spec(old(b)@, enc),
        decreases n - i,
    {
        if b[i] == 0xE8 || b[i] == 0xE9 {
            patch_at(b, i, enc);
            i += 5;
        } else {
            i += 1;
        }
    }
}

/// Decide whether to apply the BCJ filter to `b`.
pub fn want_e8e9(b: &[u8]) -> (r: bool)
    ensures
        r == want_e8e9_spec(b@),
{
    let n = b.len();
    if n >= 4 && b[0] == 0x4D && b[1] == 0x5A {
        return true;
    }
    if n >= 4 && b[0] == 0x7f && b[1] == 0x45 && b[2] == 0x4C && b[3] == 0x46 {
        return true;
    }
    let lim = if n < 0x10_0000 { n } else { 0x10_0000 };
    let mut cnt: usize = 0;
    let mut i: usize = 0;
    while i < lim
        invariant
            lim <= n,
            lim <= 0x10_0000,
            n == b@.len(),
            i <= lim,
            cnt == branch_count(b@, i as int),
            cnt <= i,
        decreases lim - i,
    {
        if b[i] == 0xE8 || b[i] == 0xE9 {
            cnt += 1;
        }
        i += 1;
    }
    cnt * 200 > lim
}

} // verus!

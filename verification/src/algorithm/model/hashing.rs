//! Small integer primitives of the model: context hashing, character classes
//! and the bit-history state machine.

use vstd::prelude::*;

verus! {

/// 32-bit wrapping addition.
pub open spec fn wadd(a: u32, b: u32) -> u32 {
    vstd::wrapping::u32_specs::wrapping_add(a, b)
}

/// 32-bit wrapping subtraction.
pub open spec fn wsub(a: u32, b: u32) -> u32 {
    vstd::wrapping::u32_specs::wrapping_sub(a, b)
}

/// 32-bit wrapping multiplication.
pub open spec fn wmul(a: u32, b: u32) -> u32 {
    vstd::wrapping::u32_specs::wrapping_mul(a, b)
}

/// 32-bit wrapping multiplication.
pub fn wm(a: u32, b: u32) -> (r: u32)
    ensures
        r == wmul(a, b),
{
    a.wrapping_mul(b)
}

/// 32-bit wrapping addition.
pub fn wa(a: u32, b: u32) -> (r: u32)
    ensures
        r == wadd(a, b),
{
    a.wrapping_add(b)
}

/// 32-bit wrapping subtraction.
pub fn ws(a: u32, b: u32) -> (r: u32)
    ensures
        r == wsub(a, b),
{
    a.wrapping_sub(b)
}

/// Fold `x` into hash state `h`: (h + x + 1) * 2654435761 (mod 2^32).
pub open spec fn hashk_spec(h: u32, x: u32) -> u32 {
    wmul(wadd(wadd(h, x), 1), 2654435761)
}

/// Fold `x` into hash state `h`.
pub fn hashk(h: u32, x: u32) -> (r: u32)
    ensures
        r == hashk_spec(h, x),
{
    h.wrapping_add(x).wrapping_add(1).wrapping_mul(2654435761)
}

/// Class of the low byte of `b`: 1 letter, 2 digit, 3 space (blank, tab, LF,
/// CR), `other` for anything else.
pub open spec fn class_of(b: u32, other: u32) -> u32 {
    let b = b & 0xff;
    if (b >= 97 && b <= 122) || (b >= 65 && b <= 90) {
        1
    } else if b >= 48 && b <= 57 {
        2
    } else if b == 32 || b == 9 || b == 10 || b == 13 {
        3
    } else {
        other
    }
}

/// Class of the low byte of `b` (see `class_of`).
pub fn class(b: u32, other: u32) -> (c: u32)
    ensures
        c == class_of(b, other),
{
    let b = b & 0xff;
    if (b >= 97 && b <= 122) || (b >= 65 && b <= 90) {
        1
    } else if b >= 48 && b <= 57 {
        2
    } else if b == 32 || b == 9 || b == 10 || b == 13 {
        3
    } else {
        other
    }
}

/// The four 2-bit classes of the bytes of `c4`, packed lowest byte first.
pub open spec fn cls4_spec(c4: u32) -> u32 {
    class_of(c4, 0) | (class_of(c4 >> 8, 0) << 2) | (class_of(c4 >> 16, 0) << 4) | (class_of(c4 >> 24, 0) << 6)
}

proof fn lemma_pack4(a: u32, b: u32, c: u32, d: u32)
    requires
        a <= 3,
        b <= 3,
        c <= 3,
        d <= 3,
    ensures
        a | (b << 2) | (c << 4) | (d << 6) < 256,
{
    assert(a | (b << 2) | (c << 4) | (d << 6) < 256) by (bit_vector)
        requires a <= 3, b <= 3, c <= 3, d <= 3;
}

/// The packed class signature is a byte.
pub proof fn lemma_cls4_range(c4: u32)
    ensures
        cls4_spec(c4) < 256,
{
    lemma_pack4(class_of(c4, 0), class_of(c4 >> 8, 0), class_of(c4 >> 16, 0), class_of(c4 >> 24, 0));
}

/// Pack the letter/digit/space/other class (2 bits each) of the four bytes in
/// `c4` into an 8-bit signature.
pub fn cls4(c4: u32) -> (r: u32)
    ensures
        r == cls4_spec(c4),
        r < 256,
{
    proof {
        lemma_cls4_range(c4);
    }
    class(c4, 0) | (class(c4 >> 8, 0) << 2) | (class(c4 >> 16, 0) << 4) | (class(c4 >> 24, 0) << 6)
}

/// The bit-history transition (see `next_state`): the high nibble counts
/// zeros, the low nibble ones.
pub open spec fn next_state_spec(s: u8, bit: i32) -> u8 {
    let n0 = s as int / 16;
    let n1 = s as int % 16;
    let m0 = if bit != 0 { if n0 > 3 { 3 } else { n0 } } else { if n0 + 1 > 15 { 15 } else { n0 + 1 } };
    let m1 = if bit != 0 { if n1 + 1 > 15 { 15 } else { n1 + 1 } } else { if n1 > 3 { 3 } else { n1 } };
    (m0 * 16 + m1) as u8
}

/// Nonstationary bit-history transition. The state byte packs two bounded
/// counts (n0 in the high nibble, n1 in the low nibble, each 0..15). On each
/// observed bit the matching count is incremented (up to 15) and the opposite
/// count is cut down to at most 3, which strongly favours recent statistics.
pub fn next_state(s: u8, bit: i32) -> (r: u8)
    ensures
        r == next_state_spec(s, bit),
{
    let mut n0 = (s / 16) as i32;
    let mut n1 = (s % 16) as i32;
    if bit != 0 {
        if n1 < 15 {
            n1 += 1;
        }
        if n0 > 3 {
            n0 = 3;
        }
    } else {
        if n0 < 15 {
            n0 += 1;
        }
        if n1 > 3 {
            n1 = 3;
        }
    }
    (n0 * 16 + n1) as u8
}

} // verus!

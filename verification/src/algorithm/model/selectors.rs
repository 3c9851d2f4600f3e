//! Mixer selector contexts: which weight row each layer-1 specialist and
//! each layer-2 combiner uses for the current bit.

use vstd::prelude::*;
use crate::algorithm::model::hashing::{wmul, wsub, wm, class, class_of};
use crate::algorithm::model::history::{HistView, History, hist_ok, back, at, last_open};

verus! {

/// Coarse sign of the difference of the low bytes of `a` and `b`:
/// 0 equal, 1 up, 2 down.
pub open spec fn dsign_spec(a: u32, b: u32) -> usize {
    let d = wsub(a & 0xff, b & 0xff) & 0xff;
    if d == 0 {
        0
    } else if d < 128 {
        1
    } else {
        2
    }
}

pub fn dsign(a: u32, b: u32) -> (r: usize)
    ensures
        r == dsign_spec(a, b),
        r <= 2,
{
    let d = (a & 0xff).wrapping_sub(b & 0xff) & 0xff;
    if d == 0 {
        0
    } else if d < 128 {
        1
    } else {
        2
    }
}

/// Bucketed magnitude of the last byte difference (0..4).
pub open spec fn dmag_spec(c4: u32) -> u32 {
    let d = wsub(c4 & 0xff, (c4 >> 8u32) & 0xff) & 0xff;
    let m = if d >= 128 { (256 - d) as u32 } else { d };
    if m == 0 {
        0
    } else if m <= 2 {
        1
    } else if m <= 8 {
        2
    } else if m <= 32 {
        3
    } else {
        4
    }
}

pub fn dmag(c4: u32) -> (r: u32)
    ensures
        r == dmag_spec(c4),
{
    let d = (c4 & 0xff).wrapping_sub((c4 >> 8) & 0xff) & 0xff;
    proof {
        crate::algorithm::model::matcher::lemma_mask_le((c4 & 0xff).wrapping_sub((c4 >> 8) & 0xff), 0xff);
    }
    let m = if d >= 128 { 256 - d } else { d };
    if m == 0 {
        0
    } else if m <= 2 {
        1
    } else if m <= 8 {
        2
    } else if m <= 32 {
        3
    } else {
        4
    }
}

/// Bucketed sign and magnitude of the last byte difference (0..7).
pub open spec fn dsm_spec(c4: u32) -> u32 {
    let d = wsub(c4 & 0xff, (c4 >> 8u32) & 0xff) & 0xff;
    let neg = d >= 128;
    let m = if neg { (256 - d) as u32 } else { d };
    let mb: u32 = if m == 0 {
        0
    } else if m <= 4 {
        1
    } else if m <= 32 {
        2
    } else {
        3
    };
    mb | (if neg { 4u32 } else { 0u32 })
}

pub fn dsm(c4: u32) -> (r: u32)
    ensures
        r == dsm_spec(c4),
{
    let d = (c4 & 0xff).wrapping_sub((c4 >> 8) & 0xff) & 0xff;
    proof {
        crate::algorithm::model::matcher::lemma_mask_le((c4 & 0xff).wrapping_sub((c4 >> 8) & 0xff), 0xff);
    }
    let neg = d >= 128;
    let m = if neg { 256 - d } else { d };
    let mb: u32 = if m == 0 {
        0
    } else if m <= 4 {
        1
    } else if m <= 32 {
        2
    } else {
        3
    };
    mb | (if neg { 4 } else { 0 })
}

/// Bucketed length of the current run of equal bytes (0..7).
pub open spec fn run_bucket_spec(r: u32) -> u32 {
    if r <= 1 {
        0
    } else if r == 2 {
        1
    } else if r <= 4 {
        2
    } else if r <= 8 {
        3
    } else if r <= 16 {
        4
    } else if r <= 64 {
        5
    } else if r <= 256 {
        6
    } else {
        7
    }
}

pub fn run_bucket(r: u32) -> (b: u32)
    ensures
        b == run_bucket_spec(r),
{
    if r <= 1 {
        0
    } else if r == 2 {
        1
    } else if r <= 4 {
        2
    } else if r <= 8 {
        3
    } else if r <= 16 {
        4
    } else if r <= 64 {
        5
    } else if r <= 256 {
        6
    } else {
        7
    }
}

proof fn lemma_small_shift()
    ensures
        forall|x: usize| x < 256 ==> #[trigger] (x >> 5usize) < 8,
{
    assert(forall|x: usize| x < 256 ==> #[trigger] (x >> 5usize) < 8) by (bit_vector);
}

/// Bucketed column (0..7).
pub open spec fn col_bucket_spec(c: u32) -> u32 {
    if c == 0 {
        0
    } else if c < 4 {
        1
    } else if c < 8 {
        2
    } else if c < 16 {
        3
    } else if c < 32 {
        4
    } else if c < 64 {
        5
    } else if c < 128 {
        6
    } else {
        7
    }
}

pub fn col_bucket(c: u32) -> (b: u32)
    ensures
        b == col_bucket_spec(c),
{
    if c == 0 {
        0
    } else if c < 4 {
        1
    } else if c < 8 {
        2
    } else if c < 16 {
        3
    } else if c < 32 {
        4
    } else if c < 64 {
        5
    } else if c < 128 {
        6
    } else {
        7
    }
}

/// Selector context of layer-1 mixer `k` (0..27); `m1`..`m4` are the
/// lengths of the first four match models.
pub open spec fn l1_ctx(h: HistView, m1: i32, m2: i32, m3: i32, m4: i32, k: int) -> usize {
    let c4 = h.c4;
    let c1 = h.c1;
    let c0 = h.c0;
    let pos = h.pos;
    let col = h.col;
    let rlen = h.rlen;
    let rcount = h.rcount;
    let run_len = h.run_len;
    let nest_depth = h.nest_depth;
    let above_byte = h.above_byte;
    let ind_pred = h.ind_pred;
    if k == 0 {
        ((((if m4 > 0 { 1i32 } else { 0i32 }) << 13u32) | ((if m3 > 72 { 1i32 } else { 0i32 }) << 12u32) | ((if m3 > 52 { 1i32 } else { 0i32 }) << 11u32) | ((if m3 > 0 { 1i32 } else { 0i32 }) << 10u32) | ((if m2 > 0 { 1i32 } else { 0i32 }) << 9u32) | ((if m1 > 0 { 1i32 } else { 0i32 }) << 8u32) | c1) as usize)
    } else if k == 1 {
        c0 as usize
    } else if k == 2 {
        ((c4 >> 8u32) & 0xff) as usize
    } else if k == 3 {
        (c4 & 0xffff) as usize
    } else if k == 4 {
        (wmul(c4 & 0xff_ffff, 0x9e37_79b1) >> 13u32) as usize
    } else if k == 5 {
        ((((if m1 < 15 { m1 } else { 15 }) as usize) << 2usize) | (if m3 > 0 { 2usize } else { 0usize }) | (if m4 > 0 { 1usize } else { 0usize }))
    } else if k == 6 {
        (((col & 63) << 6u32) | ((c1 as u32) & 63)) as usize
    } else if k == 7 {
        (wmul(c4, 0x9e37_79b1) >> 19u32) as usize
    } else if k == 8 {
        if pos >= 6 { (wmul(c4, 0x85eb_ca6b) ^ wmul(back(h, 5), 0xc2b2_ae35) ^ wmul(back(h, 6), 0x27d4_eb2f)) as usize } else { c4 as usize }
    } else if k == 9 {
        if pos >= 4 { (back(h, 2) as usize) | ((back(h, 4) as usize) << 8usize) } else { c1 as usize }
    } else if k == 10 {
        if pos >= 6 { (back(h, 3) as usize) | ((back(h, 6) as usize) << 8usize) } else { c1 as usize }
    } else if k == 11 {
        ((above_byte as usize) | (((c1 as usize) & 1) << 9usize))
    } else if k == 12 {
        ind_pred as usize
    } else if k == 13 {
        (if nest_depth > 0 { (last_open(h) as usize) | ((nest_depth & 3) << 8usize) } else { 0 })
    } else if k == 14 {
        (wmul(c4 & 0xf0f0_f0f0, 0x9e37_79b1) >> 20u32) as usize
    } else if k == 15 {
        ((class_of(c4, 0) as usize) | ((class_of(c4 >> 8u32, 0) as usize) << 2usize) | ((class_of(c4 >> 16u32, 0) as usize) << 4usize) | ((class_of(c4 >> 24u32, 0) as usize) << 6usize))
    } else if k == 16 {
        (((c4 & 0xf0) >> 4u32) as usize) | ((class_of(c4, 0) as usize) << 4usize) | ((class_of(c4 >> 8u32, 0) as usize) << 6usize)
    } else if k == 17 {
        (run_bucket_spec(run_len) as usize) | ((class_of(c4, 0) as usize) << 3usize)
    } else if k == 18 {
        (dsign_spec(c4, c4 >> 8u32) + 3 * dsign_spec(c4 >> 8u32, c4 >> 16u32) + 9 * dsign_spec(c4 >> 16u32, c4 >> 24u32)) as usize
    } else if k == 19 {
        if rcount > 8 && rlen >= 2 && rlen < pos { (1 + ((at(h, (pos - rlen) as u32) as usize) >> 5usize)) as usize } else { 0 }
    } else if k == 20 {
        ((if above_byte > 255 { 4 } else { class_of(above_byte, 0) }) as usize) | ((nest_depth & 7) << 3usize)
    } else if k == 21 {
        (dmag_spec(c4) as usize) | ((class_of(c4, 0) as usize) << 3usize)
    } else if k == 22 {
        (if above_byte <= 255 && above_byte == (c1 as u32) { 1usize } else { 0usize }) | ((if m1 > 0 { 1usize } else { 0usize }) << 1usize) | ((class_of(c4, 0) as usize) << 2usize)
    } else if k == 23 {
        ((c0 as usize) & 0x7f) | (if m1 > 0 { 128usize } else { 0usize })
    } else if k == 24 {
        ((((c4 >> 4u32) & 0xf) | (((c4 >> 12u32) & 0xf) << 2u32) | (((c4 >> 20u32) & 0xf) << 4u32)) as usize) & 63
    } else if k == 25 {
        ((dsm_spec(c4) as usize) | ((class_of(c4, 0) as usize) << 3usize))
    } else {
        (col_bucket_spec(col) as usize) | ((class_of(c4, 0) as usize) << 3usize)
    }
}

/// Selector context of layer-1 mixer `k` (0..27); `m1`..`m4` are the
/// lengths of the first four match models.
#[verifier::rlimit(40)]
pub fn l1_ctx_exec(h: &History, m1: i32, m2: i32, m3: i32, m4: i32, k: usize) -> (r: usize)
    requires
        hist_ok(h@),
        0 <= m1 <= 0x3ff,
        0 <= m2 <= 0x3ff,
        0 <= m3 <= 0x3ff,
        0 <= m4 <= 0x3ff,
        k < 27,
    ensures
        r == l1_ctx(h@, m1, m2, m3, m4, k as int),
{
    proof {
        lemma_small_shift();
    }
    let c4 = h.c4;
    let c1 = h.c1;
    let c0 = h.c0;
    let pos = h.pos;
    let col = h.col;
    let rlen = h.rlen;
    let rcount = h.rcount;
    let run_len = h.run_len;
    let nest_depth = h.nest_depth;
    let above_byte = h.above_byte;
    let ind_pred = h.ind_pred;
    if k == 0 {
        ((((if m4 > 0 { 1i32 } else { 0i32 }) << 13u32) | ((if m3 > 72 { 1i32 } else { 0i32 }) << 12u32) | ((if m3 > 52 { 1i32 } else { 0i32 }) << 11u32) | ((if m3 > 0 { 1i32 } else { 0i32 }) << 10u32) | ((if m2 > 0 { 1i32 } else { 0i32 }) << 9u32) | ((if m1 > 0 { 1i32 } else { 0i32 }) << 8u32) | c1) as usize)
    } else if k == 1 {
        c0 as usize
    } else if k == 2 {
        ((c4 >> 8u32) & 0xff) as usize
    } else if k == 3 {
        (c4 & 0xffff) as usize
    } else if k == 4 {
        (wm(c4 & 0xff_ffff, 0x9e37_79b1) >> 13u32) as usize
    } else if k == 5 {
        ((((if m1 < 15 { m1 } else { 15 }) as usize) << 2usize) | (if m3 > 0 { 2usize } else { 0usize }) | (if m4 > 0 { 1usize } else { 0usize }))
    } else if k == 6 {
        (((col & 63) << 6u32) | ((c1 as u32) & 63)) as usize
    } else if k == 7 {
        (wm(c4, 0x9e37_79b1) >> 19u32) as usize
    } else if k == 8 {
        if pos >= 6 { (wm(c4, 0x85eb_ca6b) ^ wm(h.back(5), 0xc2b2_ae35) ^ wm(h.back(6), 0x27d4_eb2f)) as usize } else { c4 as usize }
    } else if k == 9 {
        if pos >= 4 { (h.back(2) as usize) | ((h.back(4) as usize) << 8usize) } else { c1 as usize }
    } else if k == 10 {
        if pos >= 6 { (h.back(3) as usize) | ((h.back(6) as usize) << 8usize) } else { c1 as usize }
    } else if k == 11 {
        ((above_byte as usize) | (((c1 as usize) & 1) << 9usize))
    } else if k == 12 {
        ind_pred as usize
    } else if k == 13 {
        (if nest_depth > 0 { (h.last_open() as usize) | ((nest_depth & 3) << 8usize) } else { 0 })
    } else if k == 14 {
        (wm(c4 & 0xf0f0_f0f0, 0x9e37_79b1) >> 20u32) as usize
    } else if k == 15 {
        ((class(c4, 0) as usize) | ((class(c4 >> 8u32, 0) as usize) << 2usize) | ((class(c4 >> 16u32, 0) as usize) << 4usize) | ((class(c4 >> 24u32, 0) as usize) << 6usize))
    } else if k == 16 {
        (((c4 & 0xf0) >> 4u32) as usize) | ((class(c4, 0) as usize) << 4usize) | ((class(c4 >> 8u32, 0) as usize) << 6usize)
    } else if k == 17 {
        (run_bucket(run_len) as usize) | ((class(c4, 0) as usize) << 3usize)
    } else if k == 18 {
        (dsign(c4, c4 >> 8u32) + 3 * dsign(c4 >> 8u32, c4 >> 16u32) + 9 * dsign(c4 >> 16u32, c4 >> 24u32)) as usize
    } else if k == 19 {
        if rcount > 8 && rlen >= 2 && rlen < pos { (1 + ((h.at((pos - rlen) as u32) as usize) >> 5usize)) as usize } else { 0 }
    } else if k == 20 {
        ((if above_byte > 255 { 4 } else { class(above_byte, 0) }) as usize) | ((nest_depth & 7) << 3usize)
    } else if k == 21 {
        (dmag(c4) as usize) | ((class(c4, 0) as usize) << 3usize)
    } else if k == 22 {
        (if above_byte <= 255 && above_byte == (c1 as u32) { 1usize } else { 0usize }) | ((if m1 > 0 { 1usize } else { 0usize }) << 1usize) | ((class(c4, 0) as usize) << 2usize)
    } else if k == 23 {
        ((c0 as usize) & 0x7f) | (if m1 > 0 { 128usize } else { 0usize })
    } else if k == 24 {
        ((((c4 >> 4u32) & 0xf) | (((c4 >> 12u32) & 0xf) << 2u32) | (((c4 >> 20u32) & 0xf) << 4u32)) as usize) & 63
    } else if k == 25 {
        ((dsm(c4) as usize) | ((class(c4, 0) as usize) << 3usize))
    } else {
        (col_bucket(col) as usize) | ((class(c4, 0) as usize) << 3usize)
    }
}

/// Selector context of layer-2 combiner `k` (0..10); `m1`..`m4` are the
/// lengths of the first four match models.
pub open spec fn l2_ctx(h: HistView, m1: i32, m2: i32, m3: i32, m4: i32, k: int) -> usize {
    let c4 = h.c4;
    let c1 = h.c1;
    let c0 = h.c0;
    let wordhash = h.wordhash;
    let nest_depth = h.nest_depth;
    let above_byte = h.above_byte;
    if k == 0 {
        c1 as usize
    } else if k == 1 {
        c0 as usize
    } else if k == 2 {
        ((((if m1 < 15 { m1 } else { 15 }) as usize) << 2usize) | (if m3 > 0 { 2usize } else { 0usize }) | (if m4 > 0 { 1usize } else { 0usize }))
    } else if k == 3 {
        ((c4 >> 8u32) & 0xff) as usize
    } else if k == 4 {
        if wordhash != 0 { (wmul(wordhash, 0x9e37_79b1) >> 24u32) as usize } else { c1 as usize }
    } else if k == 5 {
        (wmul(c4 & 0xf0f0_f0f0, 0x9e37_79b1) >> 24u32) as usize
    } else if k == 6 {
        ((class_of(c4, 0) as usize) | ((class_of(c4 >> 8u32, 0) as usize) << 2usize) | ((class_of(c4 >> 16u32, 0) as usize) << 4usize) | ((class_of(c4 >> 24u32, 0) as usize) << 6usize))
    } else if k == 7 {
        (if nest_depth > 0 { (last_open(h) as usize) | ((nest_depth & 3) << 8usize) } else { 0 })
    } else if k == 8 {
        ((above_byte as usize) | (((c1 as usize) & 1) << 9usize))
    } else {
        ((((dsm_spec(c4) as usize) | ((class_of(c4, 0) as usize) << 3usize)) & 0xff) | (dsign_spec(c4 >> 8u32, c4 >> 16u32) << 6usize)) & 0xff
    }
}

/// Selector context of layer-2 combiner `k` (0..10); `m1`..`m4` are the
/// lengths of the first four match models.
#[verifier::rlimit(40)]
pub fn l2_ctx_exec(h: &History, m1: i32, m2: i32, m3: i32, m4: i32, k: usize) -> (r: usize)
    requires
        hist_ok(h@),
        0 <= m1 <= 0x3ff,
        0 <= m2 <= 0x3ff,
        0 <= m3 <= 0x3ff,
        0 <= m4 <= 0x3ff,
        k < 10,
    ensures
        r == l2_ctx(h@, m1, m2, m3, m4, k as int),
{
    let c4 = h.c4;
    let c1 = h.c1;
    let c0 = h.c0;
    let wordhash = h.wordhash;
    let nest_depth = h.nest_depth;
    let above_byte = h.above_byte;
    if k == 0 {
        c1 as usize
    } else if k == 1 {
        c0 as usize
    } else if k == 2 {
        ((((if m1 < 15 { m1 } else { 15 }) as usize) << 2usize) | (if m3 > 0 { 2usize } else { 0usize }) | (if m4 > 0 { 1usize } else { 0usize }))
    } else if k == 3 {
        ((c4 >> 8u32) & 0xff) as usize
    } else if k == 4 {
        if wordhash != 0 { (wm(wordhash, 0x9e37_79b1) >> 24u32) as usize } else { c1 as usize }
    } else if k == 5 {
        (wm(c4 & 0xf0f0_f0f0, 0x9e37_79b1) >> 24u32) as usize
    } else if k == 6 {
        ((class(c4, 0) as usize) | ((class(c4 >> 8u32, 0) as usize) << 2usize) | ((class(c4 >> 16u32, 0) as usize) << 4usize) | ((class(c4 >> 24u32, 0) as usize) << 6usize))
    } else if k == 7 {
        (if nest_depth > 0 { (h.last_open() as usize) | ((nest_depth & 3) << 8usize) } else { 0 })
    } else if k == 8 {
        ((above_byte as usize) | (((c1 as usize) & 1) << 9usize))
    } else {
        ((((dsm(c4) as usize) | ((class(c4, 0) as usize) << 3usize)) & 0xff) | (dsign(c4 >> 8u32, c4 >> 16u32) << 6usize)) & 0xff
    }
}

} // verus!

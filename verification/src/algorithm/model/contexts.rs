//! The context hashes of the 99 context models, recomputed at each byte
//! boundary from the history and the indirect-context tables.

use vstd::prelude::*;
use crate::algorithm::model::hashing::{
    wmul, wadd, wsub, wm, wa, ws, hashk, hashk_spec, class, class_of, cls4, cls4_spec,
};
use crate::algorithm::model::history::{HistView, History, hist_ok, back, at, last_open};
use crate::algorithm::model::follow::{
    Follow, follow_ok, follow_entry, follow_index, index, fold5, fold6, mix5, mix6, deltas, deltas_spec,
};

verus! {

/// Context hashes 0..28.
pub open spec fn ctx_hash_a(h: HistView, f: Seq<Seq<u32>>, i: int) -> u32 {
    let c4 = h.c4;
    let c1 = h.c1;
    let pos = h.pos;
    let wordhash = h.wordhash;
    let prevword = h.prevword;
    let prevword2 = h.prevword2;
    let col = h.col;
    if i == 0 {
        0
    } else if i == 1 {
        hashk_spec(0x100, c4 & 0xff)
    } else if i == 2 {
        hashk_spec(0x200, c4 & 0xffff)
    } else if i == 3 {
        hashk_spec(0x300, c4 & 0xff_ffff)
    } else if i == 4 {
        hashk_spec(0x400, c4)
    } else if i == 5 {
        hashk_spec(0x500, wmul(c4, 0x9E37_79B1) ^ ((c1 as u32) << 3u32))
    } else if i == 6 {
        if pos >= 6 {
            hashk_spec(0x600, wmul(c4, 2654435761) ^ (back(h, 5) << 7u32) ^ (back(h, 6) << 15u32))
        } else {
            hashk_spec(0x600, c4)
        }
    } else if i == 7 {
        if wordhash != 0 { hashk_spec(0x700, wordhash) } else { 0 }
    } else if i == 8 {
        hashk_spec(0x800, ((c4 >> 8u32) & 0xff) | (((c4 >> 16u32) & 0xff) << 8u32))
    } else if i == 9 {
        if pos >= 7 {
            hashk_spec(0x900, wmul(c4, 0x9E37_79B1) ^ wmul(back(h, 5), 0x85eb_ca6b) ^ wmul(back(h, 6), 0xc2b2_ae35) ^ wmul(back(h, 7), 0x27d4_eb2f))
        } else {
            hashk_spec(0x900, c4)
        }
    } else if i == 10 {
        if pos >= 8 {
            hashk_spec(0xA00, wmul(c4, 0x85eb_ca6b) ^ wmul(back(h, 5), 0xc2b2_ae35) ^ wmul(back(h, 6), 0x27d4_eb2f) ^ wmul(back(h, 7), 0x1656_67b1) ^ wmul(back(h, 8), 0x9E37_79B1))
        } else {
            hashk_spec(0xA00, c4)
        }
    } else if i == 11 {
        if pos >= 9 {
            hashk_spec(0xB00, wmul(c4, 0xc2b2_ae35) ^ wmul(back(h, 5), 0x27d4_eb2f) ^ wmul(back(h, 6), 0x1656_67b1) ^ wmul(back(h, 7), 0x85eb_ca6b) ^ wmul(back(h, 8), 0x9E37_79B1) ^ wmul(back(h, 9), 0xff51_afd7))
        } else {
            hashk_spec(0xB00, c4)
        }
    } else if i == 12 {
        if wordhash != 0 {
            hashk_spec(0xC00, wordhash ^ ((c1 as u32) << 8u32))
        } else {
            hashk_spec(0xC00, (c4 & 0xff) | (((c4 >> 8u32) & 0xff) << 8u32) | ((((c4 >> 16u32) & 0xff) & 0x1f) << 16u32))
        }
    } else if i == 13 {
        if wordhash != 0 {
            hashk_spec(0xD00, wmul(wordhash, 0x85eb_ca6b) ^ (c4 & 0xffff))
        } else {
            hashk_spec(0xD00, ((((((class_of(c4, 4) << 3u32) | class_of(c4 >> 8u32, 4)) << 3u32) | class_of(c4 >> 16u32, 4)) << 3u32) | class_of(c4 >> 24u32, 4)) ^ (c4 & 0xff))
        }
    } else if i == 14 {
        if wordhash != 0 {
            hashk_spec(0xE00, wmul(wordhash, 0xc2b2_ae35) ^ wmul(c4 & 0xdfdf_dfdf, 0x27d4_eb2f))
        } else {
            hashk_spec(0xE00, wmul(c4 & 0xff, 3) ^ wmul((c4 >> 8u32) & 0xff, 5) ^ wmul((c4 >> 16u32) & 0xff, 7) ^ wmul((c4 >> 24u32) & 0xff, 11))
        }
    } else if i == 15 {
        hashk_spec(0xF00, ((if col < 255 { col } else { 255 }) << 16u32) ^ (c4 & 0xffff))
    } else if i == 16 {
        hashk_spec(0x1000, ((col & 63) << 8u32) ^ class_of(c4, 4) ^ wmul(wordhash, 0x9e37_79b1))
    } else if i == 17 {
        if pos >= 5 {
            hashk_spec(0x1100, wmul(c4, 0x2545_f491) ^ wmul(back(h, 5), 0x9e37_79b1))
        } else {
            hashk_spec(0x1100, c4)
        }
    } else if i == 18 {
        if pos >= 11 {
            hashk_spec(0x1200, wmul(c4, 0x9e37_79b1) ^ wmul(back(h, 5), 0x85eb_ca6b) ^ wmul(back(h, 6), 0xc2b2_ae35) ^ wmul(back(h, 7), 0x27d4_eb2f) ^ wmul(back(h, 8), 0x1656_67b1) ^ wmul(back(h, 9), 0xff51_afd7) ^ wmul(back(h, 10), 0xc4ce_b9fe) ^ wmul(back(h, 11), 0x2545_f491))
        } else {
            hashk_spec(0x1200, c4)
        }
    } else if i == 19 {
        if pos >= 6 {
            hashk_spec(0x1300, back(h, 2) | (back(h, 4) << 8u32) | (back(h, 6) << 16u32))
        } else {
            hashk_spec(0x1300, c4)
        }
    } else if i == 20 {
        if pos >= 3 { hashk_spec(0x1400, (c4 & 0xff) | (back(h, 3) << 8u32)) } else { hashk_spec(0x1400, c4) }
    } else if i == 21 {
        if pos >= 4 { hashk_spec(0x1500, (c4 & 0xff) | (back(h, 4) << 8u32)) } else { hashk_spec(0x1500, c4) }
    } else if i == 22 {
        if pos >= 5 { hashk_spec(0x1600, (c4 & 0xff) | (back(h, 5) << 8u32)) } else { hashk_spec(0x1600, c4) }
    } else if i == 23 {
        if prevword != 0 {
            hashk_spec(0x1700, wadd(wmul(prevword, 0x9e37_79b1), wmul(wordhash, 0x85eb_ca6b)))
        } else {
            0
        }
    } else if i == 24 {
        if prevword != 0 { hashk_spec(0x1800, wmul(prevword, 0xc2b2_ae35) ^ (c4 & 0xffff)) } else { 0 }
    } else if i == 25 {
        if prevword2 != 0 {
            hashk_spec(0x1900, wadd(wadd(wmul(prevword2, 0x27d4_eb2f), wmul(prevword, 0x9e37_79b1)), wmul(wordhash, 0x85eb_ca6b)))
        } else {
            0
        }
    } else if i == 26 {
        if pos >= 10 {
            hashk_spec(0x1A00, wmul(c4, 0x2545_f491) ^ wmul(back(h, 5), 0x85eb_ca6b) ^ wmul(back(h, 6), 0xc2b2_ae35) ^ wmul(back(h, 7), 0x27d4_eb2f) ^ wmul(back(h, 8), 0x1656_67b1) ^ wmul(back(h, 9), 0xff51_afd7) ^ wmul(back(h, 10), 0xc4ce_b9fe))
        } else {
            hashk_spec(0x1A00, c4)
        }
    } else if i == 27 {
        if pos >= 13 {
            hashk_spec(0x1B00, wmul(c4, 0xc2b2_ae35) ^ wmul(back(h, 5), 0x85eb_ca6b) ^ wmul(back(h, 6), 0xc2b2_ae35) ^ wmul(back(h, 7), 0x27d4_eb2f) ^ wmul(back(h, 8), 0x1656_67b1) ^ wmul(back(h, 9), 0xff51_afd7) ^ wmul(back(h, 10), 0xc4ce_b9fe) ^ wmul(back(h, 11), 0x2545_f491) ^ wmul(back(h, 12), 0x9e37_79b9) ^ wmul(back(h, 13), 0x7f4a_7c15))
        } else {
            hashk_spec(0x1B00, c4)
        }
    } else {
        if pos >= 16 {
            hashk_spec(0x1C00, wmul(c4, 0x9e37_79b1) ^ wmul(back(h, 5), 0x85eb_ca6b) ^ wmul(back(h, 6), 0xc2b2_ae35) ^ wmul(back(h, 7), 0x27d4_eb2f) ^ wmul(back(h, 8), 0x1656_67b1) ^ wmul(back(h, 9), 0xff51_afd7) ^ wmul(back(h, 10), 0xc4ce_b9fe) ^ wmul(back(h, 11), 0x2545_f491) ^ wmul(back(h, 12), 0x9e37_79b9) ^ wmul(back(h, 13), 0x7f4a_7c15) ^ wmul(back(h, 14), 0x94d0_49bb) ^ wmul(back(h, 15), 0xd6e8_feb8) ^ wmul(back(h, 16), 0xa548_1ad7))
        } else {
            hashk_spec(0x1C00, c4)
        }
    }
}

#[verifier::rlimit(40)]
fn ctx_hash_a_exec(h: &History, f: &Follow, i: usize) -> (r: u32)
    requires
        hist_ok(h@),
        follow_ok(f@),
        0 <= i < 29,
    ensures
        r == ctx_hash_a(h@, f@, i as int),
{
    let c4 = h.c4;
    let c1 = h.c1;
    let pos = h.pos;
    let wordhash = h.wordhash;
    let prevword = h.prevword;
    let prevword2 = h.prevword2;
    let col = h.col;
    if i == 0 {
        0
    } else if i == 1 {
        hashk(0x100, c4 & 0xff)
    } else if i == 2 {
        hashk(0x200, c4 & 0xffff)
    } else if i == 3 {
        hashk(0x300, c4 & 0xff_ffff)
    } else if i == 4 {
        hashk(0x400, c4)
    } else if i == 5 {
        hashk(0x500, wm(c4, 0x9E37_79B1) ^ ((c1 as u32) << 3u32))
    } else if i == 6 {
        if pos >= 6 {
            hashk(0x600, wm(c4, 2654435761) ^ (h.back(5) << 7u32) ^ (h.back(6) << 15u32))
        } else {
            hashk(0x600, c4)
        }
    } else if i == 7 {
        if wordhash != 0 { hashk(0x700, wordhash) } else { 0 }
    } else if i == 8 {
        hashk(0x800, ((c4 >> 8u32) & 0xff) | (((c4 >> 16u32) & 0xff) << 8u32))
    } else if i == 9 {
        if pos >= 7 {
            hashk(0x900, wm(c4, 0x9E37_79B1) ^ wm(h.back(5), 0x85eb_ca6b) ^ wm(h.back(6), 0xc2b2_ae35) ^ wm(h.back(7), 0x27d4_eb2f))
        } else {
            hashk(0x900, c4)
        }
    } else if i == 10 {
        if pos >= 8 {
            hashk(0xA00, wm(c4, 0x85eb_ca6b) ^ wm(h.back(5), 0xc2b2_ae35) ^ wm(h.back(6), 0x27d4_eb2f) ^ wm(h.back(7), 0x1656_67b1) ^ wm(h.back(8), 0x9E37_79B1))
        } else {
            hashk(0xA00, c4)
        }
    } else if i == 11 {
        if pos >= 9 {
            hashk(0xB00, wm(c4, 0xc2b2_ae35) ^ wm(h.back(5), 0x27d4_eb2f) ^ wm(h.back(6), 0x1656_67b1) ^ wm(h.back(7), 0x85eb_ca6b) ^ wm(h.back(8), 0x9E37_79B1) ^ wm(h.back(9), 0xff51_afd7))
        } else {
            hashk(0xB00, c4)
        }
    } else if i == 12 {
        if wordhash != 0 {
            hashk(0xC00, wordhash ^ ((c1 as u32) << 8u32))
        } else {
            hashk(0xC00, (c4 & 0xff) | (((c4 >> 8u32) & 0xff) << 8u32) | ((((c4 >> 16u32) & 0xff) & 0x1f) << 16u32))
        }
    } else if i == 13 {
        if wordhash != 0 {
            hashk(0xD00, wm(wordhash, 0x85eb_ca6b) ^ (c4 & 0xffff))
        } else {
            hashk(0xD00, ((((((class(c4, 4) << 3u32) | class(c4 >> 8u32, 4)) << 3u32) | class(c4 >> 16u32, 4)) << 3u32) | class(c4 >> 24u32, 4)) ^ (c4 & 0xff))
        }
    } else if i == 14 {
        if wordhash != 0 {
            hashk(0xE00, wm(wordhash, 0xc2b2_ae35) ^ wm(c4 & 0xdfdf_dfdf, 0x27d4_eb2f))
        } else {
            hashk(0xE00, wm(c4 & 0xff, 3) ^ wm((c4 >> 8u32) & 0xff, 5) ^ wm((c4 >> 16u32) & 0xff, 7) ^ wm((c4 >> 24u32) & 0xff, 11))
        }
    } else if i == 15 {
        hashk(0xF00, ((if col < 255 { col } else { 255 }) << 16u32) ^ (c4 & 0xffff))
    } else if i == 16 {
        hashk(0x1000, ((col & 63) << 8u32) ^ class(c4, 4) ^ wm(wordhash, 0x9e37_79b1))
    } else if i == 17 {
        if pos >= 5 {
            hashk(0x1100, wm(c4, 0x2545_f491) ^ wm(h.back(5), 0x9e37_79b1))
        } else {
            hashk(0x1100, c4)
        }
    } else if i == 18 {
        if pos >= 11 {
            hashk(0x1200, wm(c4, 0x9e37_79b1) ^ wm(h.back(5), 0x85eb_ca6b) ^ wm(h.back(6), 0xc2b2_ae35) ^ wm(h.back(7), 0x27d4_eb2f) ^ wm(h.back(8), 0x1656_67b1) ^ wm(h.back(9), 0xff51_afd7) ^ wm(h.back(10), 0xc4ce_b9fe) ^ wm(h.back(11), 0x2545_f491))
        } else {
            hashk(0x1200, c4)
        }
    } else if i == 19 {
        if pos >= 6 {
            hashk(0x1300, h.back(2) | (h.back(4) << 8u32) | (h.back(6) << 16u32))
        } else {
            hashk(0x1300, c4)
        }
    } else if i == 20 {
        if pos >= 3 { hashk(0x1400, (c4 & 0xff) | (h.back(3) << 8u32)) } else { hashk(0x1400, c4) }
    } else if i == 21 {
        if pos >= 4 { hashk(0x1500, (c4 & 0xff) | (h.back(4) << 8u32)) } else { hashk(0x1500, c4) }
    } else if i == 22 {
        if pos >= 5 { hashk(0x1600, (c4 & 0xff) | (h.back(5) << 8u32)) } else { hashk(0x1600, c4) }
    } else if i == 23 {
        if prevword != 0 {
            hashk(0x1700, wa(wm(prevword, 0x9e37_79b1), wm(wordhash, 0x85eb_ca6b)))
        } else {
            0
        }
    } else if i == 24 {
        if prevword != 0 { hashk(0x1800, wm(prevword, 0xc2b2_ae35) ^ (c4 & 0xffff)) } else { 0 }
    } else if i == 25 {
        if prevword2 != 0 {
            hashk(0x1900, wa(wa(wm(prevword2, 0x27d4_eb2f), wm(prevword, 0x9e37_79b1)), wm(wordhash, 0x85eb_ca6b)))
        } else {
            0
        }
    } else if i == 26 {
        if pos >= 10 {
            hashk(0x1A00, wm(c4, 0x2545_f491) ^ wm(h.back(5), 0x85eb_ca6b) ^ wm(h.back(6), 0xc2b2_ae35) ^ wm(h.back(7), 0x27d4_eb2f) ^ wm(h.back(8), 0x1656_67b1) ^ wm(h.back(9), 0xff51_afd7) ^ wm(h.back(10), 0xc4ce_b9fe))
        } else {
            hashk(0x1A00, c4)
        }
    } else if i == 27 {
        if pos >= 13 {
            hashk(0x1B00, wm(c4, 0xc2b2_ae35) ^ wm(h.back(5), 0x85eb_ca6b) ^ wm(h.back(6), 0xc2b2_ae35) ^ wm(h.back(7), 0x27d4_eb2f) ^ wm(h.back(8), 0x1656_67b1) ^ wm(h.back(9), 0xff51_afd7) ^ wm(h.back(10), 0xc4ce_b9fe) ^ wm(h.back(11), 0x2545_f491) ^ wm(h.back(12), 0x9e37_79b9) ^ wm(h.back(13), 0x7f4a_7c15))
        } else {
            hashk(0x1B00, c4)
        }
    } else {
        if pos >= 16 {
            hashk(0x1C00, wm(c4, 0x9e37_79b1) ^ wm(h.back(5), 0x85eb_ca6b) ^ wm(h.back(6), 0xc2b2_ae35) ^ wm(h.back(7), 0x27d4_eb2f) ^ wm(h.back(8), 0x1656_67b1) ^ wm(h.back(9), 0xff51_afd7) ^ wm(h.back(10), 0xc4ce_b9fe) ^ wm(h.back(11), 0x2545_f491) ^ wm(h.back(12), 0x9e37_79b9) ^ wm(h.back(13), 0x7f4a_7c15) ^ wm(h.back(14), 0x94d0_49bb) ^ wm(h.back(15), 0xd6e8_feb8) ^ wm(h.back(16), 0xa548_1ad7))
        } else {
            hashk(0x1C00, c4)
        }
    }
}

/// Context hashes 29..65.
pub open spec fn ctx_hash_b(h: HistView, f: Seq<Seq<u32>>, i: int) -> u32 {
    let c4 = h.c4;
    let pos = h.pos;
    if i < 47 {
        let k = (i - 26) as u32;
        let tag = (i * 256) as u32;
        if pos >= k * 3 {
            hashk_spec(tag, back(h, k) | (back(h, (k * 2) as u32) << 8u32) | (back(h, (k * 3) as u32) << 16u32))
        } else {
            hashk_spec(tag, c4)
        }
    } else if i < 55 {
        let k = (i - 41) as u32;
        let tag = (0x3000 + (i - 47) * 256) as u32;
        if pos >= k {
            hashk_spec(tag, (c4 & 0xff) | (back(h, k) << 8u32))
        } else {
            hashk_spec(tag, c4)
        }
    } else {
        let k = (i - 53) as u32;
        let tag = (0x4000 + (i - 55) * 256) as u32;
        if pos >= k * 4 {
            hashk_spec(tag, back(h, k) ^ wmul(back(h, (k * 2) as u32), 0x85eb_ca6b) ^ wmul(back(h, (k * 3) as u32), 0xc2b2_ae35) ^ wmul(back(h, (k * 4) as u32), 0x27d4_eb2f))
        } else {
            hashk_spec(tag, c4)
        }
    }
}

#[verifier::rlimit(40)]
fn ctx_hash_b_exec(h: &History, f: &Follow, i: usize) -> (r: u32)
    requires
        hist_ok(h@),
        follow_ok(f@),
        29 <= i < 66,
    ensures
        r == ctx_hash_b(h@, f@, i as int),
{
    let c4 = h.c4;
    let pos = h.pos;
    if i < 47 {
        let k = (i - 26) as u32;
        let tag = (i * 256) as u32;
        if pos >= k * 3 {
            hashk(tag, h.back(k) | (h.back((k * 2) as u32) << 8u32) | (h.back((k * 3) as u32) << 16u32))
        } else {
            hashk(tag, c4)
        }
    } else if i < 55 {
        let k = (i - 41) as u32;
        let tag = (0x3000 + (i - 47) * 256) as u32;
        if pos >= k {
            hashk(tag, (c4 & 0xff) | (h.back(k) << 8u32))
        } else {
            hashk(tag, c4)
        }
    } else {
        let k = (i - 53) as u32;
        let tag = (0x4000 + (i - 55) * 256) as u32;
        if pos >= k * 4 {
            hashk(tag, h.back(k) ^ wm(h.back((k * 2) as u32), 0x85eb_ca6b) ^ wm(h.back((k * 3) as u32), 0xc2b2_ae35) ^ wm(h.back((k * 4) as u32), 0x27d4_eb2f))
        } else {
            hashk(tag, c4)
        }
    }
}

/// Context hashes 66..80.
pub open spec fn ctx_hash_c(h: HistView, f: Seq<Seq<u32>>, i: int) -> u32 {
    let c4 = h.c4;
    let c1 = h.c1;
    let pos = h.pos;
    let wordhash = h.wordhash;
    let prevword = h.prevword;
    let prevword2 = h.prevword2;
    let prevword3 = h.prevword3;
    let line_start = h.line_start;
    let prev_line_start = h.prev_line_start;
    let prev2_line_start = h.prev2_line_start;
    let rlen = h.rlen;
    let rcount = h.rcount;
    let col2d = wsub(pos, line_start);
    let above_pos = wadd(prev_line_start, col2d);
    let have_above = prev_line_start != 0 && above_pos < line_start;
    let above: u32 = if have_above { at(h, above_pos) } else { 0 };
    let rec_ok = rcount > 8 && rlen >= 2 && rlen < pos;
    if i == 66 {
        if prevword3 != 0 {
            hashk_spec(0x6000, wadd(wadd(wadd(wmul(prevword3, 0x1656_67b1), wmul(prevword2, 0x27d4_eb2f)), wmul(prevword, 0x9e37_79b1)), wmul(wordhash, 0x85eb_ca6b)))
        } else {
            0
        }
    } else if i == 67 {
        if prevword2 != 0 { hashk_spec(0x6100, wadd(wmul(prevword2, 0xc2b2_ae35), wmul(wordhash, 0x9e37_79b1))) } else { 0 }
    } else if i == 68 {
        if prevword3 != 0 { hashk_spec(0x6200, wadd(wmul(prevword3, 0x1656_67b1), wmul(wordhash, 0x9e37_79b1))) } else { 0 }
    } else if i == 69 {
        if have_above { hashk_spec(0x6300, above | ((if col2d < 1023 { col2d } else { 1023 }) << 9u32)) } else { 0 }
    } else if i == 70 {
        if have_above { hashk_spec(0x6400, above | ((c1 as u32) << 8u32)) } else { 0 }
    } else if i == 71 {
        if have_above && above_pos > prev_line_start { hashk_spec(0x6500, above | (at(h, (above_pos - 1) as u32) << 8u32)) } else { 0 }
    } else if i == 72 {
        if rec_ok { hashk_spec(0x6600, at(h, (pos - rlen) as u32) | ((c1 as u32) << 8u32)) } else { 0 }
    } else if i == 73 {
        if rec_ok && pos > rlen + 1 { hashk_spec(0x6700, at(h, (pos - rlen) as u32) | (at(h, (pos - rlen - 1) as u32) << 8u32)) } else { 0 }
    } else if i == 74 {
        let above2_pos = wadd(prev2_line_start, col2d);
        if prev2_line_start != 0 && above2_pos < prev_line_start && have_above {
            hashk_spec(0x6800, above | (at(h, above2_pos) << 8u32))
        } else {
            0
        }
    } else if i == 75 {
        hashk_spec(0x6900, (c4 & 0xff) ^ wmul(follow_entry(f, h, 0), 0x9e37_79b1))
    } else if i == 76 {
        hashk_spec(0x6A00, (c4 & 0xffff) ^ wmul(follow_entry(f, h, 1), 0x85eb_ca6b))
    } else if i == 77 {
        hashk_spec(0x6B00, (c4 & 0x00ff_ffff) ^ wmul(follow_entry(f, h, 2), 0xc2b2_ae35))
    } else if i == 78 {
        hashk_spec(0x6C00, c4 ^ wmul(follow_entry(f, h, 3), 0x27d4_eb2f))
    } else if i == 79 {
        if have_above && above_pos + 1 < line_start { hashk_spec(0x6D00, above | (at(h, (above_pos + 1) as u32) << 8u32)) } else { 0 }
    } else {
        if have_above && above_pos > prev_line_start && above_pos + 1 < line_start {
            hashk_spec(0x6E00, above ^ (at(h, (above_pos - 1) as u32) << 8u32) ^ (at(h, (above_pos + 1) as u32) << 16u32))
        } else {
            0
        }
    }
}

#[verifier::rlimit(40)]
fn ctx_hash_c_exec(h: &History, f: &Follow, i: usize) -> (r: u32)
    requires
        hist_ok(h@),
        follow_ok(f@),
        66 <= i < 81,
    ensures
        r == ctx_hash_c(h@, f@, i as int),
{
    let c4 = h.c4;
    let c1 = h.c1;
    let pos = h.pos;
    let wordhash = h.wordhash;
    let prevword = h.prevword;
    let prevword2 = h.prevword2;
    let prevword3 = h.prevword3;
    let line_start = h.line_start;
    let prev_line_start = h.prev_line_start;
    let prev2_line_start = h.prev2_line_start;
    let rlen = h.rlen;
    let rcount = h.rcount;
    let col2d = ws(pos, line_start);
    let above_pos = wa(prev_line_start, col2d);
    let have_above = prev_line_start != 0 && above_pos < line_start;
    let above: u32 = if have_above { h.at(above_pos) } else { 0 };
    let rec_ok = rcount > 8 && rlen >= 2 && rlen < pos;
    if i == 66 {
        if prevword3 != 0 {
            hashk(0x6000, wa(wa(wa(wm(prevword3, 0x1656_67b1), wm(prevword2, 0x27d4_eb2f)), wm(prevword, 0x9e37_79b1)), wm(wordhash, 0x85eb_ca6b)))
        } else {
            0
        }
    } else if i == 67 {
        if prevword2 != 0 { hashk(0x6100, wa(wm(prevword2, 0xc2b2_ae35), wm(wordhash, 0x9e37_79b1))) } else { 0 }
    } else if i == 68 {
        if prevword3 != 0 { hashk(0x6200, wa(wm(prevword3, 0x1656_67b1), wm(wordhash, 0x9e37_79b1))) } else { 0 }
    } else if i == 69 {
        if have_above { hashk(0x6300, above | ((if col2d < 1023 { col2d } else { 1023 }) << 9u32)) } else { 0 }
    } else if i == 70 {
        if have_above { hashk(0x6400, above | ((c1 as u32) << 8u32)) } else { 0 }
    } else if i == 71 {
        if have_above && above_pos > prev_line_start { hashk(0x6500, above | (h.at((above_pos - 1) as u32) << 8u32)) } else { 0 }
    } else if i == 72 {
        if rec_ok { hashk(0x6600, h.at((pos - rlen) as u32) | ((c1 as u32) << 8u32)) } else { 0 }
    } else if i == 73 {
        if rec_ok && pos > rlen + 1 { hashk(0x6700, h.at((pos - rlen) as u32) | (h.at((pos - rlen - 1) as u32) << 8u32)) } else { 0 }
    } else if i == 74 {
        let above2_pos = wa(prev2_line_start, col2d);
        if prev2_line_start != 0 && above2_pos < prev_line_start && have_above {
            hashk(0x6800, above | (h.at(above2_pos) << 8u32))
        } else {
            0
        }
    } else if i == 75 {
        hashk(0x6900, (c4 & 0xff) ^ wm(f.entry(h, 0), 0x9e37_79b1))
    } else if i == 76 {
        hashk(0x6A00, (c4 & 0xffff) ^ wm(f.entry(h, 1), 0x85eb_ca6b))
    } else if i == 77 {
        hashk(0x6B00, (c4 & 0x00ff_ffff) ^ wm(f.entry(h, 2), 0xc2b2_ae35))
    } else if i == 78 {
        hashk(0x6C00, c4 ^ wm(f.entry(h, 3), 0x27d4_eb2f))
    } else if i == 79 {
        if have_above && above_pos + 1 < line_start { hashk(0x6D00, above | (h.at((above_pos + 1) as u32) << 8u32)) } else { 0 }
    } else {
        if have_above && above_pos > prev_line_start && above_pos + 1 < line_start {
            hashk(0x6E00, above ^ (h.at((above_pos - 1) as u32) << 8u32) ^ (h.at((above_pos + 1) as u32) << 16u32))
        } else {
            0
        }
    }
}

/// Context hashes 81..98.
pub open spec fn ctx_hash_d(h: HistView, f: Seq<Seq<u32>>, i: int) -> u32 {
    let c4 = h.c4;
    let pos = h.pos;
    let wordhash = h.wordhash;
    let run_len = h.run_len;
    let nest_depth = h.nest_depth;
    if i == 81 {
        if wordhash != 0 { hashk_spec(0x7000, wordhash ^ wmul(follow_entry(f, h, 14), 0xc2b2_ae35)) } else { 0 }
    } else if i == 82 {
        hashk_spec(0x7100, (c4 & 0xff) | ((if run_len < 255 { run_len } else { 255 }) << 8u32))
    } else if i == 83 {
        hashk_spec(0x7200, ((nest_depth as u32) & 31) | ((c4 & 0xff) << 5u32))
    } else if i == 84 {
        hashk_spec(0x7300, last_open(h) | ((c4 & 0xff) << 8u32))
    } else if i == 85 {
        hashk_spec(0x7400, wmul(last_open(h), 0x9e37_79b1) ^ (((nest_depth as u32) & 31) << 16u32) ^ (c4 & 0xffff))
    } else if i == 86 {
        hashk_spec(0x7700, (c4 & 0xf0f0_f0f0) ^ (if pos >= 5 { (back(h, 5) & 0xf0) << 24u32 } else { 0 }))
    } else if i == 87 {
        let hn = (c4 & 0xf0f0_f0f0) ^ (if pos >= 5 { (back(h, 5) & 0xf0) << 24u32 } else { 0 });
        if pos >= 8 {
            hashk_spec(0x7800, wmul(hn, 0x9e37_79b1) ^ ((back(h, 6) & 0xf0) << 4u32) ^ ((back(h, 7) & 0xf0) << 12u32) ^ ((back(h, 8) & 0xf0) << 20u32))
        } else {
            hashk_spec(0x7800, hn)
        }
    } else if i == 88 {
        hashk_spec(0x7900, deltas_spec(c4))
    } else if i == 89 {
        if pos >= 5 { hashk_spec(0x7A00, fold5(h) ^ wmul(follow_entry(f, h, 4), 0xc2b2_ae35)) } else { 0 }
    } else if i == 90 {
        if pos >= 6 { hashk_spec(0x7B00, fold6(h) ^ wmul(follow_entry(f, h, 5), 0x9e37_79b1)) } else { 0 }
    } else if i == 91 {
        hashk_spec(0x7C00, wmul(c4 & 0xf0f0_f0f0, 0x9e37_79b1) ^ wmul(follow_entry(f, h, 6), 0xc2b2_ae35))
    } else if i == 92 {
        hashk_spec(0x7D00, wmul(deltas_spec(c4), 0x85eb_ca6b) ^ wmul(follow_entry(f, h, 7), 0x27d4_eb2f))
    } else if i == 93 {
        hashk_spec(0x7E00, cls4_spec(c4) ^ wmul(follow_entry(f, h, 8), 0x9e37_79b1))
    } else if i == 94 {
        hashk_spec(0x7F00, wmul(c4 & 0x0f0f_0f0f, 0xc2b2_ae35) ^ wmul(follow_entry(f, h, 9), 0x85eb_ca6b))
    } else if i == 95 {
        hashk_spec(0x8000, (follow_index(h, 10) as u32) ^ wmul(follow_entry(f, h, 10), 0x27d4_eb2f))
    } else if i == 96 {
        hashk_spec(0x8100, (follow_index(h, 11) as u32) ^ wmul(follow_entry(f, h, 11), 0x9e37_79b1))
    } else if i == 97 {
        hashk_spec(0x8200, (follow_index(h, 12) as u32) ^ wmul(follow_entry(f, h, 12), 0x85eb_ca6b))
    } else {
        hashk_spec(0x8300, (follow_index(h, 13) as u32) ^ wmul(follow_entry(f, h, 13), 0xc2b2_ae35))
    }
}

#[verifier::rlimit(40)]
fn ctx_hash_d_exec(h: &History, f: &Follow, i: usize) -> (r: u32)
    requires
        hist_ok(h@),
        follow_ok(f@),
        81 <= i < 99,
    ensures
        r == ctx_hash_d(h@, f@, i as int),
{
    let c4 = h.c4;
    let pos = h.pos;
    let wordhash = h.wordhash;
    let run_len = h.run_len;
    let nest_depth = h.nest_depth;
    if i == 81 {
        if wordhash != 0 { hashk(0x7000, wordhash ^ wm(f.entry(h, 14), 0xc2b2_ae35)) } else { 0 }
    } else if i == 82 {
        hashk(0x7100, (c4 & 0xff) | ((if run_len < 255 { run_len } else { 255 }) << 8u32))
    } else if i == 83 {
        hashk(0x7200, ((nest_depth as u32) & 31) | ((c4 & 0xff) << 5u32))
    } else if i == 84 {
        hashk(0x7300, h.last_open() | ((c4 & 0xff) << 8u32))
    } else if i == 85 {
        hashk(0x7400, wm(h.last_open(), 0x9e37_79b1) ^ (((nest_depth as u32) & 31) << 16u32) ^ (c4 & 0xffff))
    } else if i == 86 {
        hashk(0x7700, (c4 & 0xf0f0_f0f0) ^ (if pos >= 5 { (h.back(5) & 0xf0) << 24u32 } else { 0 }))
    } else if i == 87 {
        let hn = (c4 & 0xf0f0_f0f0) ^ (if pos >= 5 { (h.back(5) & 0xf0) << 24u32 } else { 0 });
        if pos >= 8 {
            hashk(0x7800, wm(hn, 0x9e37_79b1) ^ ((h.back(6) & 0xf0) << 4u32) ^ ((h.back(7) & 0xf0) << 12u32) ^ ((h.back(8) & 0xf0) << 20u32))
        } else {
            hashk(0x7800, hn)
        }
    } else if i == 88 {
        hashk(0x7900, deltas(c4))
    } else if i == 89 {
        if pos >= 5 { hashk(0x7A00, mix5(h) ^ wm(f.entry(h, 4), 0xc2b2_ae35)) } else { 0 }
    } else if i == 90 {
        if pos >= 6 { hashk(0x7B00, mix6(h) ^ wm(f.entry(h, 5), 0x9e37_79b1)) } else { 0 }
    } else if i == 91 {
        hashk(0x7C00, wm(c4 & 0xf0f0_f0f0, 0x9e37_79b1) ^ wm(f.entry(h, 6), 0xc2b2_ae35))
    } else if i == 92 {
        hashk(0x7D00, wm(deltas(c4), 0x85eb_ca6b) ^ wm(f.entry(h, 7), 0x27d4_eb2f))
    } else if i == 93 {
        hashk(0x7E00, cls4(c4) ^ wm(f.entry(h, 8), 0x9e37_79b1))
    } else if i == 94 {
        hashk(0x7F00, wm(c4 & 0x0f0f_0f0f, 0xc2b2_ae35) ^ wm(f.entry(h, 9), 0x85eb_ca6b))
    } else if i == 95 {
        hashk(0x8000, (index(h, 10) as u32) ^ wm(f.entry(h, 10), 0x27d4_eb2f))
    } else if i == 96 {
        hashk(0x8100, (index(h, 11) as u32) ^ wm(f.entry(h, 11), 0x9e37_79b1))
    } else if i == 97 {
        hashk(0x8200, (index(h, 12) as u32) ^ wm(f.entry(h, 12), 0x85eb_ca6b))
    } else {
        hashk(0x8300, (index(h, 13) as u32) ^ wm(f.entry(h, 13), 0xc2b2_ae35))
    }
}

/// The hash of context `i` (0..99) for the current history.
pub open spec fn ctx_hash(h: HistView, f: Seq<Seq<u32>>, i: int) -> u32 {
    if i < 29 {
        ctx_hash_a(h, f, i)
    } else if i < 66 {
        ctx_hash_b(h, f, i)
    } else if i < 81 {
        ctx_hash_c(h, f, i)
    } else {
        ctx_hash_d(h, f, i)
    }
}

/// The hash of context `i` for the current history.
pub fn context_hash(h: &History, f: &Follow, i: usize) -> (r: u32)
    requires
        hist_ok(h@),
        follow_ok(f@),
        i < 99,
    ensures
        r == ctx_hash(h@, f@, i as int),
{
    if i < 29 {
        ctx_hash_a_exec(h, f, i)
    } else if i < 66 {
        ctx_hash_b_exec(h, f, i)
    } else if i < 81 {
        ctx_hash_c_exec(h, f, i)
    } else {
        ctx_hash_d_exec(h, f, i)
    }
}

/// The byte at the same column on the previous line (256 when there is none).
pub open spec fn above_of(h: HistView) -> u32 {
    let col2d = wsub(h.pos, h.line_start);
    let above_pos = wadd(h.prev_line_start, col2d);
    if h.prev_line_start != 0 && above_pos < h.line_start {
        at(h, above_pos)
    } else {
        256
    }
}

/// The byte at the same column on the previous line (256 when there is none).
pub fn above(h: &History) -> (r: u32)
    requires
        hist_ok(h@),
    ensures
        r == above_of(h@),
        r <= 256,
{
    let col2d = h.pos.wrapping_sub(h.line_start);
    let above_pos = h.prev_line_start.wrapping_add(col2d);
    if h.prev_line_start != 0 && above_pos < h.line_start {
        h.at(above_pos)
    } else {
        256
    }
}

} // verus!

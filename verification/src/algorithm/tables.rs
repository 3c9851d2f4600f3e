//! Logistic transform tables (stretch / squash).
//!
//! `squash` maps a logit d in [-2047, 2047] to a probability; `stretch` is its
//! inverse: the least logit whose squashed value reaches a given probability.

use vstd::prelude::*;
use crate::algorithm::logistic::{logistic12, logistic12_at, logistic16, logistic16_at};

verus! {

/// `v` clamped into `[lo, hi]`.
pub open spec fn clamp(v: int, lo: int, hi: int) -> int {
    if v < lo {
        lo
    } else if v > hi {
        hi
    } else {
        v
    }
}

/// The squash table evaluated at logit `d`: saturates to `lo` / `hi` outside
/// the open interval (-2047, 2047).
pub open spec fn squash_at(sq: Seq<i32>, d: int, lo: int, hi: int) -> int {
    if d >= 2047 {
        hi
    } else if d <= -2047 {
        lo
    } else {
        sq[d + 2048] as int
    }
}

/// The least logit `d' >= d` (stepping up to 2047) whose squashed value
/// reaches `p`; 2047 when none does.
pub open spec fn first_reach(sq: Seq<i32>, p: int, d: int, lo: int, hi: int) -> int
    decreases 2047 - d,
{
    if d >= 2047 {
        2047
    } else if squash_at(sq, d, lo, hi) >= p {
        d
    } else {
        first_reach(sq, p, d + 1, lo, hi)
    }
}

/// The 12-bit squash table: the logistic points clamped to [0, 4095].
pub open spec fn squash12_table() -> Seq<i32> {
    Seq::new(4096, |i: int| clamp(logistic12(i) as int, 0, 4095) as i32)
}

/// The 16-bit squash table: the logistic points clamped to [1, 65534].
pub open spec fn squash16_table() -> Seq<i32> {
    Seq::new(4096, |i: int| clamp(logistic16(i) as int, 1, 65534) as i32)
}

/// The 12-bit stretch table: entry p is the least logit whose squash reaches p.
pub open spec fn stretch12_table() -> Seq<i32> {
    Seq::new(4096, |p: int| first_reach(squash12_table(), p, -2047, 0, 4095) as i32)
}

/// The 16-bit stretch table: entry p is the least logit whose squash reaches p.
pub open spec fn stretch16_table() -> Seq<i32> {
    Seq::new(65536, |p: int| first_reach(squash16_table(), p, -2047, 1, 65534) as i32)
}

pub proof fn lemma_first_reach_range(sq: Seq<i32>, p: int, d: int, lo: int, hi: int)
    requires
        d >= -2047,
    ensures
        d <= first_reach(sq, p, d, lo, hi) <= 2047 || (d > 2047 && first_reach(sq, p, d, lo, hi) == 2047),
        -2047 <= first_reach(sq, p, d, lo, hi) <= 2047,
    decreases 2047 - d,
{
    if d < 2047 && squash_at(sq, d, lo, hi) < p {
        lemma_first_reach_range(sq, p, d + 1, lo, hi);
    }
}

/// Every stretch value is a logit in [-2047, 2047].
pub proof fn lemma_stretch_tables_range()
    ensures
        forall|p: int| 0 <= p < 4096 ==> -2047 <= #[trigger] stretch12_table()[p] <= 2047,
        forall|p: int| 0 <= p < 65536 ==> -2047 <= #[trigger] stretch16_table()[p] <= 2047,
{
    assert forall|p: int| 0 <= p < 4096 implies -2047 <= #[trigger] stretch12_table()[p] <= 2047 by {
        lemma_first_reach_range(squash12_table(), p, -2047, 0, 4095);
    }
    assert forall|p: int| 0 <= p < 65536 implies -2047 <= #[trigger] stretch16_table()[p] <= 2047 by {
        lemma_first_reach_range(squash16_table(), p, -2047, 1, 65534);
    }
}

/// `first_reach` finds a logit reaching `p` when one exists up to 2047.
proof fn lemma_first_reach_reaches(sq: Seq<i32>, p: int, d: int, lo: int, hi: int)
    requires
        -2047 <= d,
        p <= hi,
    ensures
        squash_at(sq, first_reach(sq, p, d, lo, hi), lo, hi) >= p,
    decreases 2047 - d,
{
    if d < 2047 && squash_at(sq, d, lo, hi) < p {
        lemma_first_reach_reaches(sq, p, d + 1, lo, hi);
    }
}

/// `first_reach` stops no later than any logit at or after its start that
/// reaches `p`.
proof fn lemma_first_reach_least(sq: Seq<i32>, p: int, d: int, e: int, lo: int, hi: int)
    requires
        d <= e <= 2047,
        squash_at(sq, e, lo, hi) >= p,
    ensures
        first_reach(sq, p, d, lo, hi) <= e,
    decreases 2047 - d,
{
    if d < e && squash_at(sq, d, lo, hi) < p {
        lemma_first_reach_least(sq, p, d + 1, e, lo, hi);
    }
}

/// Stretch inverts squash: squashing `stretch(p)` reaches `p`, and
/// stretching `squash(d)` gives back at most `d` (the least logit with that
/// probability), for both table pairs.
pub proof fn lemma_stretch_inverts_squash()
    ensures
        forall|p: int| 0 <= p < 4096 ==> squash_at(squash12_table(), #[trigger] stretch12_table()[p] as int, 0, 4095) >= p,
        forall|d: int| -2047 <= d <= 2047 ==> stretch12_table()[#[trigger] squash_at(squash12_table(), d, 0, 4095)] <= d,
        forall|p: int| 0 <= p <= 65534 ==> squash_at(squash16_table(), #[trigger] stretch16_table()[p] as int, 1, 65534) >= p,
        forall|d: int| -2047 <= d <= 2047 ==> stretch16_table()[#[trigger] squash_at(squash16_table(), d, 1, 65534)] <= d,
{
    lemma_squash_tables_range();
    assert forall|p: int| 0 <= p < 4096 implies squash_at(squash12_table(), #[trigger] stretch12_table()[p] as int, 0, 4095) >= p by {
        lemma_first_reach_reaches(squash12_table(), p, -2047, 0, 4095);
        lemma_first_reach_range(squash12_table(), p, -2047, 0, 4095);
    }
    assert forall|d: int| -2047 <= d <= 2047 implies stretch12_table()[#[trigger] squash_at(squash12_table(), d, 0, 4095)] <= d by {
        let q = squash_at(squash12_table(), d, 0, 4095);
        assert(0 <= q <= 4095);
        lemma_first_reach_least(squash12_table(), q, -2047, d, 0, 4095);
        lemma_first_reach_range(squash12_table(), q, -2047, 0, 4095);
    }
    assert forall|p: int| 0 <= p <= 65534 implies squash_at(squash16_table(), #[trigger] stretch16_table()[p] as int, 1, 65534) >= p by {
        lemma_first_reach_reaches(squash16_table(), p, -2047, 1, 65534);
        lemma_first_reach_range(squash16_table(), p, -2047, 1, 65534);
    }
    assert forall|d: int| -2047 <= d <= 2047 implies stretch16_table()[#[trigger] squash_at(squash16_table(), d, 1, 65534)] <= d by {
        let q = squash_at(squash16_table(), d, 1, 65534);
        assert(1 <= q <= 65534);
        lemma_first_reach_least(squash16_table(), q, -2047, d, 1, 65534);
        lemma_first_reach_range(squash16_table(), q, -2047, 1, 65534);
    }
}

/// Every squash value lies in its clamp range.
pub proof fn lemma_squash_tables_range()
    ensures
        forall|i: int| 0 <= i < 4096 ==> 0 <= #[trigger] squash12_table()[i] <= 4095,
        forall|i: int| 0 <= i < 4096 ==> 1 <= #[trigger] squash16_table()[i] <= 65534,
{
}

/// Fills `stretch[pi..]` as the inverse of `squash` (shared by both tables).
fn invert(squash: &Vec<i32>, lo: i32, hi: i32, size: usize) -> (stretch: Vec<i32>)
    requires
        squash.len() == 4096,
        size == 4096 || size == 65536,
        0 <= lo <= hi < size,
        forall|i: int| 0 <= i < 4096 ==> lo <= #[trigger] squash@[i] <= hi,
    ensures
        stretch@.len() == size,
        forall|p: int| 0 <= p < size ==> #[trigger] stretch@[p] == first_reach(squash@, p, -2047, lo as int, hi as int),
{
    let mut stretch: Vec<i32> = vec![0i32; size];
    let mut pi: usize = 0;
    let mut d: i32 = -2047;
    while d <= 2047
        invariant
            -2047 <= d <= 2048,
            squash.len() == 4096,
            0 <= lo <= hi < size,
            forall|i: int| 0 <= i < 4096 ==> lo <= #[trigger] squash@[i] <= hi,
            stretch@.len() == size,
            pi <= size,
            d == 2048 ==> pi > hi,
            forall|q: int| 0 <= q < pi ==> #[trigger] stretch@[q] == first_reach(squash@, q, -2047, lo as int, hi as int),
            forall|q: int| pi <= q < size ==> #[trigger] first_reach(squash@, q, -2047, lo as int, hi as int) == first_reach(squash@, q, d as int, lo as int, hi as int),
        decreases 2048 - d,
    {
        let p = squash_d_generic(squash, d, lo, hi);
        while pi <= p as usize
            invariant
                -2047 <= d <= 2047,
                squash.len() == 4096,
                0 <= lo <= p <= hi < size,
                p == squash_at(squash@, d as int, lo as int, hi as int),
                stretch@.len() == size,
                pi <= size,
                forall|q: int| 0 <= q < pi ==> #[trigger] stretch@[q] == first_reach(squash@, q, -2047, lo as int, hi as int),
                forall|q: int| pi <= q < size ==> #[trigger] first_reach(squash@, q, -2047, lo as int, hi as int) == first_reach(squash@, q, d as int, lo as int, hi as int),
            decreases p + 1 - pi,
        {
            assert(first_reach(squash@, pi as int, d as int, lo as int, hi as int) == d);
            stretch.set(pi, d);
            pi += 1;
        }
        assert forall|q: int| pi <= q < size implies #[trigger] first_reach(squash@, q, -2047, lo as int, hi as int) == first_reach(squash@, q, d + 1, lo as int, hi as int) by {
            assert(first_reach(squash@, q, -2047, lo as int, hi as int) == first_reach(squash@, q, d as int, lo as int, hi as int));
        }
        d += 1;
    }
    while pi < size
        invariant
            squash.len() == 4096,
            stretch@.len() == size,
            pi <= size,
            forall|q: int| 0 <= q < pi ==> #[trigger] stretch@[q] == first_reach(squash@, q, -2047, lo as int, hi as int),
            forall|q: int| pi <= q < size ==> #[trigger] first_reach(squash@, q, -2047, lo as int, hi as int) == first_reach(squash@, q, 2048, lo as int, hi as int),
        decreases size - pi,
    {
        stretch.set(pi, 2047);
        pi += 1;
    }
    stretch
}

fn squash_d_generic(squash: &Vec<i32>, d: i32, lo: i32, hi: i32) -> (p: i32)
    requires
        squash.len() == 4096,
    ensures
        p == squash_at(squash@, d as int, lo as int, hi as int),
{
    if d >= 2047 {
        return hi;
    }
    if d <= -2047 {
        return lo;
    }
    squash[(d + 2048) as usize]
}

/// Build the (stretch, squash) pair of 12-bit tables:
/// squash(d) = 4096 / (1 + e^(-d/256)) sampled at d in [-2048, 2047] and
/// clamped to [0, 4095]; stretch is its inverse.
pub fn build() -> (r: (Vec<i32>, Vec<i32>))
    ensures
        r.0@ == stretch12_table(),
        r.1@ == squash12_table(),
{
    let mut squash: Vec<i32> = vec![0i32; 4096];
    let mut i: usize = 0;
    while i < 4096
        invariant
            squash@.len() == 4096,
            i <= 4096,
            forall|k: int| 0 <= k < i ==> #[trigger] squash@[k] == squash12_table()[k],
        decreases 4096 - i,
    {
        let mut iv = logistic12_at(i);
        if iv < 0 {
            iv = 0;
        }
        if iv > 4095 {
            iv = 4095;
        }
        squash.set(i, iv);
        i += 1;
    }
    assert(squash@ =~= squash12_table());
    let stretch = invert(&squash, 0, 4095, 4096);
    assert(stretch@ =~= stretch12_table());
    (stretch, squash)
}

/// Squash a logit through the 12-bit table, saturating at 0 / 4095.
pub fn squash_d(squash: &[i32], d: i32) -> (p: i32)
    requires
        -2047 < d < 2047 ==> d + 2048 < squash@.len(),
    ensures
        p == squash_at(squash@, d as int, 0, 4095),
{
    if d >= 2047 {
        return 4095;
    }
    if d <= -2047 {
        return 0;
    }
    squash[(d + 2048) as usize]
}

/// Build the 16-bit-resolution tables: (stretch16[0..65536] -> logit,
/// squash16[logit + 2048] -> probability in [1, 65534]). Same logistic as
/// `build`, kept at 16 bits so confident predictions are not capped at the
/// 12-bit resolution.
pub fn build16() -> (r: (Vec<i32>, Vec<i32>))
    ensures
        r.0@ == stretch16_table(),
        r.1@ == squash16_table(),
{
    let mut squash16: Vec<i32> = vec![0i32; 4096];
    let mut i: usize = 0;
    while i < 4096
        invariant
            squash16@.len() == 4096,
            i <= 4096,
            forall|k: int| 0 <= k < i ==> #[trigger] squash16@[k] == squash16_table()[k],
        decreases 4096 - i,
    {
        let mut iv = logistic16_at(i);
        if iv < 1 {
            iv = 1;
        }
        if iv > 65534 {
            iv = 65534;
        }
        squash16.set(i, iv);
        i += 1;
    }
    assert(squash16@ =~= squash16_table());
    let stretch16 = invert(&squash16, 1, 65534, 65536);
    assert(stretch16@ =~= stretch16_table());
    (stretch16, squash16)
}

/// Squash a logit through the 16-bit table, saturating at 1 / 65534.
pub fn squash16_d(squash16: &[i32], d: i32) -> (p: i32)
    requires
        -2047 < d < 2047 ==> d + 2048 < squash16@.len(),
    ensures
        p == squash_at(squash16@, d as int, 1, 65534),
{
    if d >= 2047 {
        return 65534;
    }
    if d <= -2047 {
        return 1;
    }
    squash16[(d + 2048) as usize]
}

} // verus!

//! The scoring rule: the score is the total compressed size over the
//! corpus, gated on every file coming back exactly.

use vstd::prelude::*;
use crate::algorithm::codec::{compress, decompress, compress_spec, decompress_spec, lemma_roundtrip};

verus! {

/// What compressing one file gave.
pub struct Outcome {
    /// Uncompressed size.
    pub orig: u64,
    /// Compressed size.
    pub ours: u64,
    /// Whether decompression gave the file back.
    pub lossless: bool,
}

/// Whether `a` and `b` hold the same bytes.
pub fn same_bytes(a: &[u8], b: &[u8]) -> (r: bool)
    ensures
        r == (a@ == b@),
{
    if a.len() != b.len() {
        return false;
    }
    let mut i: usize = 0;
    while i < a.len()
        invariant
            a@.len() == b@.len(),
            i <= a@.len(),
            forall|j: int| 0 <= j < i ==> a@[j] == b@[j],
        decreases a@.len() - i,
    {
        if a[i] != b[i] {
            return false;
        }
        i += 1;
    }
    assert(a@ =~= b@);
    true
}

/// Compress `data`, decompress the result and compare it with `data`.
pub fn evaluate(data: &[u8]) -> (o: Outcome)
    requires
        data@.len() <= 0xffff_ffff,
    ensures
        o.orig == data@.len(),
        o.ours == compress_spec(data@).len(),
        o.lossless == (decompress_spec(compress_spec(data@)) == data@),
        o.lossless,
{
    let c = compress(data);
    proof {
        lemma_roundtrip(data@);
    }
    let d = decompress(c.as_slice());
    let lossless = same_bytes(d.as_slice(), data);
    Outcome { orig: data.len() as u64, ours: c.len() as u64, lossless }
}

/// Totals over the files scored so far.
pub struct Tally {
    pub tot_orig: u64,
    pub tot_ours: u64,
    pub tot_zstd: u64,
    pub tot_xz: u64,
    /// Every file came back exactly.
    pub all_lossless: bool,
    /// Every file had a zstd baseline.
    pub have_zstd: bool,
    /// Every file had an xz baseline.
    pub have_xz: bool,
}

/// The tally after one more file.
pub open spec fn tally_add(t: Tally, o: Outcome, zstd22: Option<u64>, xz9e: Option<u64>) -> Tally {
    Tally {
        tot_orig: (t.tot_orig + o.orig) as u64,
        tot_ours: (t.tot_ours + o.ours) as u64,
        tot_zstd: match zstd22 { Some(z) => (t.tot_zstd + z) as u64, None => t.tot_zstd },
        tot_xz: match xz9e { Some(x) => (t.tot_xz + x) as u64, None => t.tot_xz },
        all_lossless: t.all_lossless && o.lossless,
        have_zstd: t.have_zstd && zstd22 is Some,
        have_xz: t.have_xz && xz9e is Some,
    }
}

/// The tally after adding, in order, files with the given outcomes and
/// zstd / xz baselines.
pub open spec fn tally_run(t: Tally, fs: Seq<(Outcome, Option<u64>, Option<u64>)>) -> Tally
    decreases fs.len(),
{
    if fs.len() == 0 {
        t
    } else {
        let f = fs.last();
        tally_add(tally_run(t, fs.drop_last()), f.0, f.1, f.2)
    }
}

/// After any sequence of adds, a tally still has a zstd (xz) baseline total
/// exactly when it had one before and every added file came with a zstd (xz)
/// baseline, so a total missing one file is never compared; it is still
/// lossless exactly when every added file came back exactly. Once lost, each
/// flag stays lost.
pub proof fn lemma_tally_flags(t: Tally, fs: Seq<(Outcome, Option<u64>, Option<u64>)>)
    ensures
        tally_run(t, fs).have_zstd == (t.have_zstd && forall|j: int| 0 <= j < fs.len() ==> (#[trigger] fs[j]).1 is Some),
        tally_run(t, fs).have_xz == (t.have_xz && forall|j: int| 0 <= j < fs.len() ==> (#[trigger] fs[j]).2 is Some),
        tally_run(t, fs).all_lossless == (t.all_lossless && forall|j: int| 0 <= j < fs.len() ==> (#[trigger] fs[j]).0.lossless),
    decreases fs.len(),
{
    if fs.len() > 0 {
        let p = fs.drop_last();
        lemma_tally_flags(t, p);
        assert forall|j: int| 0 <= j < p.len() implies #[trigger] p[j] == fs[j] by {}
        let n = fs.len() - 1;
        if (forall|j: int| 0 <= j < fs.len() ==> (#[trigger] fs[j]).1 is Some) {
            assert forall|j: int| 0 <= j < p.len() implies (#[trigger] p[j]).1 is Some by {
                assert(fs[j].1 is Some);
            }
        }
        if (forall|j: int| 0 <= j < p.len() ==> (#[trigger] p[j]).1 is Some) && fs[n].1 is Some {
            assert forall|j: int| 0 <= j < fs.len() implies (#[trigger] fs[j]).1 is Some by {
                if j < n {
                    assert(p[j].1 is Some);
                }
            }
        }
        if (forall|j: int| 0 <= j < fs.len() ==> (#[trigger] fs[j]).2 is Some) {
            assert forall|j: int| 0 <= j < p.len() implies (#[trigger] p[j]).2 is Some by {
                assert(fs[j].2 is Some);
            }
        }
        if (forall|j: int| 0 <= j < p.len() ==> (#[trigger] p[j]).2 is Some) && fs[n].2 is Some {
            assert forall|j: int| 0 <= j < fs.len() implies (#[trigger] fs[j]).2 is Some by {
                if j < n {
                    assert(p[j].2 is Some);
                }
            }
        }
        if (forall|j: int| 0 <= j < fs.len() ==> (#[trigger] fs[j]).0.lossless) {
            assert forall|j: int| 0 <= j < p.len() implies (#[trigger] p[j]).0.lossless by {
                assert(fs[j].0.lossless);
            }
        }
        if (forall|j: int| 0 <= j < p.len() ==> (#[trigger] p[j]).0.lossless) && fs[n].0.lossless {
            assert forall|j: int| 0 <= j < fs.len() implies (#[trigger] fs[j]).0.lossless by {
                if j < n {
                    assert(p[j].0.lossless);
                }
            }
        }
    }
}

impl Tally {
    /// Nothing scored yet.
    pub fn new() -> (t: Self)
        ensures
            t == (Tally {
                tot_orig: 0,
                tot_ours: 0,
                tot_zstd: 0,
                tot_xz: 0,
                all_lossless: true,
                have_zstd: true,
                have_xz: true,
            }),
    {
        Tally { tot_orig: 0, tot_ours: 0, tot_zstd: 0, tot_xz: 0, all_lossless: true, have_zstd: true, have_xz: true }
    }

    /// Add one file's outcome and baselines.
    pub fn add(&mut self, o: &Outcome, zstd22: Option<u64>, xz9e: Option<u64>)
        requires
            old(self).tot_orig + o.orig <= u64::MAX,
            old(self).tot_ours + o.ours <= u64::MAX,
            zstd22 matches Some(z) ==> old(self).tot_zstd + z <= u64::MAX,
            xz9e matches Some(x) ==> old(self).tot_xz + x <= u64::MAX,
        ensures
            *final(self) == tally_add(*old(self), *o, zstd22, xz9e),
    {
        if !o.lossless {
            self.all_lossless = false;
        }
        self.tot_orig = self.tot_orig + o.orig;
        self.tot_ours = self.tot_ours + o.ours;
        match zstd22 {
            Some(z) => {
                self.tot_zstd = self.tot_zstd + z;
            },
            None => {
                self.have_zstd = false;
            },
        }
        match xz9e {
            Some(x) => {
                self.tot_xz = self.tot_xz + x;
            },
            None => {
                self.have_xz = false;
            },
        }
    }
}

/// The run's exit status: 2 for an empty corpus, 1 when some file did not
/// come back exactly, 0 otherwise.
pub fn exit_code(files: usize, t: &Tally) -> (code: i32)
    ensures
        code == (if files == 0 { 2i32 } else if !t.all_lossless { 1i32 } else { 0i32 }),
{
    if files == 0 {
        2
    } else if !t.all_lossless {
        1
    } else {
        0
    }
}

} // verus!

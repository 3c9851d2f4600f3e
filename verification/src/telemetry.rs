//! Allocation telemetry: the bytes currently live, their high-water mark and
//! the cumulative volume ever requested. Counting requested sizes makes the
//! numbers deterministic (independent of the OS, page size or resident set).

use vstd::prelude::*;

verus! {

/// The allocation counters.
pub struct Counters {
    /// Bytes currently allocated (wraps around).
    pub live: usize,
    /// High-water mark of `live`.
    pub peak: usize,
    /// Bytes ever requested (wraps around).
    pub total: usize,
}

/// The counters after an allocation of `size` bytes.
pub open spec fn alloc_spec(c: Counters, size: usize) -> Counters {
    let live = vstd::wrapping::usize_specs::wrapping_add(c.live, size);
    Counters {
        live,
        peak: if live > c.peak { live } else { c.peak },
        total: vstd::wrapping::usize_specs::wrapping_add(c.total, size),
    }
}

/// The counters after `size` bytes were freed.
pub open spec fn free_spec(c: Counters, size: usize) -> Counters {
    Counters { live: vstd::wrapping::usize_specs::wrapping_sub(c.live, size), ..c }
}

/// The counters after a block of `old_size` bytes was resized to `new_size`.
pub open spec fn realloc_spec(c: Counters, old_size: usize, new_size: usize) -> Counters {
    if new_size >= old_size {
        alloc_spec(c, (new_size - old_size) as usize)
    } else {
        free_spec(c, (old_size - new_size) as usize)
    }
}

impl Counters {
    /// The counters at start.
    pub open spec fn zero() -> Counters {
        Counters { live: 0, peak: 0, total: 0 }
    }

    /// All counters at zero.
    pub fn new() -> (c: Self)
        ensures
            c == (Counters { live: 0, peak: 0, total: 0 }),
    {
        Counters { live: 0, peak: 0, total: 0 }
    }

    /// Record an allocation of `size` bytes.
    pub fn on_alloc(&mut self, size: usize)
        ensures
            *final(self) == alloc_spec(*old(self), size),
    {
        self.total = self.total.wrapping_add(size);
        self.live = self.live.wrapping_add(size);
        if self.live > self.peak {
            self.peak = self.live;
        }
    }

    /// Record that `size` bytes were freed.
    pub fn on_free(&mut self, size: usize)
        ensures
            *final(self) == free_spec(*old(self), size),
    {
        self.live = self.live.wrapping_sub(size);
    }

    /// Record that a block of `old_size` bytes was resized to `new_size`:
    /// growth counts as an allocation of the difference, shrinking as a free.
    pub fn on_realloc(&mut self, old_size: usize, new_size: usize)
        ensures
            *final(self) == realloc_spec(*old(self), old_size, new_size),
    {
        if new_size >= old_size {
            self.on_alloc(new_size - old_size);
        } else {
            self.on_free(old_size - new_size);
        }
    }
}

/// Cumulative bytes ever requested.
pub fn allocated(c: &Counters) -> (r: u64)
    ensures
        r == c.total as u64,
{
    c.total as u64
}

/// High-water mark of simultaneously live bytes.
pub fn peak(c: &Counters) -> (r: u64)
    ensures
        r == c.peak as u64,
{
    c.peak as u64
}

/// One event seen by the allocator wrapper.
pub enum Event {
    /// A block of this many bytes was allocated.
    Alloc(usize),
    /// A block of this many bytes was freed.
    Free(usize),
    /// A block was resized from the first size to the second.
    Realloc(usize, usize),
}

/// The counters after `e`.
pub open spec fn apply_event(c: Counters, e: Event) -> Counters {
    match e {
        Event::Alloc(size) => alloc_spec(c, size),
        Event::Free(size) => free_spec(c, size),
        Event::Realloc(old_size, new_size) => realloc_spec(c, old_size, new_size),
    }
}

/// The counters after the first `k` events, starting from zero.
pub open spec fn run_events(evs: Seq<Event>, k: nat) -> Counters
    decreases k,
{
    if k == 0 {
        Counters::zero()
    } else {
        apply_event(run_events(evs, (k - 1) as nat), evs[k - 1])
    }
}

/// `e` neither overflows the live count nor frees more than is live.
pub open spec fn event_fits(c: Counters, e: Event) -> bool {
    match e {
        Event::Alloc(size) => c.live + size <= usize::MAX,
        Event::Free(size) => size <= c.live,
        Event::Realloc(old_size, new_size) => if new_size >= old_size {
            c.live + (new_size - old_size) <= usize::MAX
        } else {
            old_size - new_size <= c.live
        },
    }
}

/// Every one of the first `k` events fits the counters it met.
pub open spec fn events_fit(evs: Seq<Event>, k: nat) -> bool {
    forall|j: nat| j < k ==> event_fits(#[trigger] run_events(evs, j), evs[j as int])
}

/// Over any run of events that never overflows the live count and never
/// frees more than is live, `peak` is the high-water mark of `live`: it is at
/// least every live count seen so far, equals one of them, and never
/// decreases.
pub proof fn lemma_peak_run(evs: Seq<Event>, k: nat)
    requires
        k <= evs.len(),
        events_fit(evs, k),
    ensures
        forall|j: nat| j <= k ==> (#[trigger] run_events(evs, j)).live <= run_events(evs, k).peak,
        forall|j: nat| j <= k ==> (#[trigger] run_events(evs, j)).peak <= run_events(evs, k).peak,
        exists|j: nat| j <= k && (#[trigger] run_events(evs, j)).live == run_events(evs, k).peak,
    decreases k,
{
    if k == 0 {
        assert(run_events(evs, 0).live == run_events(evs, 0).peak);
    } else {
        let k1 = (k - 1) as nat;
        assert forall|j: nat| j < k1 implies event_fits(#[trigger] run_events(evs, j), evs[j as int]) by {
            assert(j < k);
        }
        lemma_peak_run(evs, k1);
        let c = run_events(evs, k1);
        let c2 = run_events(evs, k);
        assert(event_fits(c, evs[k1 as int]));
        assert(c2.peak >= c.peak);
        assert(c2.live <= c2.peak || c2.live <= c.peak);
        assert forall|j: nat| j <= k implies (#[trigger] run_events(evs, j)).live <= c2.peak by {
            if j < k {
                assert(run_events(evs, j).live <= c.peak);
            }
        }
        assert forall|j: nat| j <= k implies (#[trigger] run_events(evs, j)).peak <= c2.peak by {
            if j < k {
                assert(run_events(evs, j).peak <= c.peak);
            }
        }
        if c2.peak == c.peak {
            let w = choose|j: nat| j <= k1 && (#[trigger] run_events(evs, j)).live == c.peak;
            assert(w <= k && run_events(evs, w).live == c2.peak);
        } else {
            assert(run_events(evs, k).live == c2.peak);
        }
    }
}

/// The peak is a high-water mark: it never decreases, and if the live bytes
/// were within it before, they stay within it after an allocation, a free of
/// at most what is live, or a resize that frees at most what is live.
pub proof fn lemma_peak_is_high_water(c: Counters, size: usize, old_size: usize, new_size: usize)
    requires
        c.live <= c.peak,
        c.live + size <= usize::MAX,
        new_size >= old_size ==> c.live + (new_size - old_size) <= usize::MAX,
    ensures
        alloc_spec(c, size).live <= alloc_spec(c, size).peak,
        alloc_spec(c, size).peak >= c.peak,
        size <= c.live ==> free_spec(c, size).live <= free_spec(c, size).peak,
        free_spec(c, size).peak == c.peak,
        new_size + c.live >= old_size ==> realloc_spec(c, old_size, new_size).live <= realloc_spec(c, old_size, new_size).peak,
        realloc_spec(c, old_size, new_size).peak >= c.peak,
{
}

/// The peak never exceeds the volume ever allocated (while that volume has
/// not wrapped around): it holds initially and every operation keeps it.
pub proof fn lemma_peak_within_allocated(c: Counters, size: usize, old_size: usize, new_size: usize)
    requires
        c.live <= c.peak <= c.total,
        c.total + size <= usize::MAX,
        new_size >= old_size ==> c.total + (new_size - old_size) <= usize::MAX,
    ensures
        Counters::zero().peak <= Counters::zero().total,
        alloc_spec(c, size).peak <= alloc_spec(c, size).total,
        free_spec(c, size).peak <= free_spec(c, size).total,
        realloc_spec(c, old_size, new_size).peak <= realloc_spec(c, old_size, new_size).total,
{
}

} // verus!

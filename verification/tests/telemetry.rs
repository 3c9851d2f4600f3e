//! Allocation counters.

use lib::telemetry::{allocated, peak, Counters};

#[test]
fn counts_allocations_and_frees() {
    let mut c = Counters::new();
    c.on_alloc(100);
    c.on_alloc(50);
    c.on_free(120);
    c.on_alloc(10);
    assert_eq!(c.live, 40);
    assert_eq!(peak(&c), 150);
    assert_eq!(allocated(&c), 160);
}

#[test]
fn realloc_grows_or_shrinks() {
    let mut c = Counters::new();
    c.on_alloc(64);
    c.on_realloc(64, 256);
    assert_eq!(c.live, 256);
    assert_eq!(peak(&c), 256);
    assert_eq!(allocated(&c), 256);
    c.on_realloc(256, 16);
    assert_eq!(c.live, 16);
    assert_eq!(peak(&c), 256);
    assert_eq!(allocated(&c), 256);
}

#[test]
fn peak_is_a_high_water_mark() {
    let mut c = Counters::new();
    let sizes = [5usize, 7, 3, 11, 2];
    for (k, &s) in sizes.iter().enumerate() {
        c.on_alloc(s);
        if k % 2 == 1 {
            c.on_free(s);
        }
        assert!(c.live <= c.peak);
    }
    assert_eq!(peak(&c), 19);
}

#[test]
fn total_wraps() {
    let mut c = Counters::new();
    c.total = usize::MAX;
    c.on_alloc(2);
    assert_eq!(c.total, 1);
}

#[test]
fn live_wraps_and_peak_stays() {
    let mut c = Counters::new();
    c.live = usize::MAX;
    c.peak = usize::MAX;
    c.on_alloc(2);
    assert_eq!(c.live, 1);
    assert_eq!(peak(&c), usize::MAX as u64);
    assert_eq!(allocated(&c), 2);
}

#[test]
fn peak_never_decreases_over_a_run() {
    let mut c = Counters::new();
    let mut last = 0u64;
    let mut max_live = 0usize;
    for k in 0..40usize {
        if k % 3 == 2 {
            c.on_free(c.live / 2);
        } else if k % 5 == 4 {
            let old = c.live.min(64);
            c.on_realloc(old, old * 3);
        } else {
            c.on_alloc(k * 7 + 1);
        }
        max_live = max_live.max(c.live);
        assert!(peak(&c) >= last);
        assert_eq!(peak(&c), max_live as u64);
        last = peak(&c);
    }
}

//! The cache model.

use lib::memcost::{Cache, Sim};

#[test]
fn two_way_lru() {
    // 256 bytes in 2-way sets of 64-byte lines: 2 sets.
    let mut c = Cache::new(256, 2);
    assert!(!c.hit(5, 1));
    assert!(c.hit(5, 2));
    assert!(!c.hit(7, 3));
    assert!(c.hit(5, 4));
    // Line 9 shares the set of 5 and 7; 7 is the least recently used.
    assert!(!c.hit(9, 5));
    assert!(!c.hit(7, 6));
    assert!(c.hit(9, 7));
    assert!(!c.hit(5, 8));
    // The other set is untouched.
    assert!(!c.hit(4, 9));
}

#[test]
fn hierarchy_counts() {
    let mut s = Sim::new();
    s.access(0, 4);
    assert_eq!(s.misses(), (1, 1, 1));
    assert_eq!(s.memcost(), 254);
    s.access(0, 4);
    assert_eq!(s.misses(), (1, 1, 1));
    // Bytes 60..68 span lines 0 and 1.
    s.access(60, 8);
    assert_eq!(s.misses(), (2, 2, 2));
    // A zero-size access touches one line.
    s.access(128, 0);
    assert_eq!(s.misses(), (3, 3, 3));
    assert_eq!(s.accesses(), 4);
    assert_eq!(s.memcost(), 3 * 254);
}

#[test]
fn level_one_eviction_hits_level_two() {
    let mut s = Sim::new();
    // Nine lines in one level-1 set (64 sets, 8 ways) evict the first.
    for k in 0..9u32 {
        s.access(k * 64 * 64, 1);
    }
    assert_eq!(s.misses(), (9, 9, 9));
    s.access(0, 1);
    assert_eq!(s.misses(), (10, 9, 9));
}

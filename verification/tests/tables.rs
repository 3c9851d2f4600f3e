//! The logistic tables.

use lib::algorithm::tables::{build, build16, squash16_d, squash_d};

#[test]
fn squash_values() {
    let (_stretch, squash) = build();
    assert_eq!(squash.len(), 4096);
    assert_eq!(squash[2048], 2048);
    assert_eq!(squash[0], 1);
    assert_eq!(squash[4095], 4095);
    assert_eq!(squash[2048 + 256], 2994);
    assert_eq!(squash_d(&squash, 0), 2048);
    assert_eq!(squash_d(&squash, 2047), 4095);
    assert_eq!(squash_d(&squash, -2047), 0);
    assert_eq!(squash_d(&squash, 256), 2994);
}

#[test]
fn stretch_values() {
    let (stretch, _squash) = build();
    assert_eq!(stretch.len(), 4096);
    assert_eq!(stretch[2048], 0);
    assert_eq!(stretch[0], -2047);
    assert_eq!(stretch[1], -2046);
    assert_eq!(stretch[3000], 258);
    assert_eq!(stretch[4095], 2026);
}

#[test]
fn stretch_inverts_squash() {
    let (stretch, squash) = build();
    for p in 0..4096usize {
        assert!(squash_d(&squash, stretch[p]) >= p as i32);
    }
    for d in -2047..=2047i32 {
        assert!(stretch[squash_d(&squash, d) as usize] <= d);
    }
}

#[test]
fn sixteen_bit_tables() {
    let (stretch16, squash16) = build16();
    assert_eq!(stretch16.len(), 65536);
    assert_eq!(squash16.len(), 4096);
    assert_eq!(squash16[2048], 32768);
    assert_eq!(squash16[2048 + 256], 47911);
    assert_eq!(squash16_d(&squash16, 0), 32768);
    assert_eq!(squash16_d(&squash16, 2047), 65534);
    assert_eq!(squash16_d(&squash16, -2047), 1);
    assert_eq!(stretch16[65535], 2047);
    for p in 0..=65534usize {
        assert!(squash16_d(&squash16, stretch16[p]) >= p as i32);
    }
}

#[test]
fn saturated_logits_need_no_table() {
    assert_eq!(squash_d(&[], i32::MAX), 4095);
    assert_eq!(squash_d(&[], i32::MIN), 0);
    assert_eq!(squash16_d(&[], 9999), 65534);
    assert_eq!(squash16_d(&[], -9999), 1);
    let sq = vec![7i32; 4096];
    assert_eq!(squash_d(&sq, 2046), 7);
    assert_eq!(squash_d(&sq, -2046), 7);
}

#[test]
fn sixteen_bit_curve_follows_twelve_bit_curve() {
    let (_, sq) = build();
    let (_, sq16) = build16();
    for i in 0..4096 {
        assert!((sq16[i] - 16 * sq[i]).abs() <= 8, "point {}", i);
        if i > 0 {
            assert!(sq16[i - 1] <= sq16[i]);
        }
    }
}

//! Scoring.

use lib::harness::corpus::Entry;
use lib::harness::eval::{evaluate, exit_code, same_bytes, Outcome, Tally};

#[test]
fn evaluate_small_file() {
    let o = evaluate(b"hello hello hello");
    assert_eq!(o.orig, 17);
    assert!(o.lossless);
    assert_eq!(o.ours, lib::compress(b"hello hello hello").len() as u64);
}

#[test]
fn tally_and_exit_code() {
    let mut t = Tally::new();
    assert_eq!(exit_code(0, &t), 2);
    t.add(&Outcome { orig: 100, ours: 40, lossless: true }, Some(50), None);
    t.add(&Outcome { orig: 10, ours: 9, lossless: true }, Some(8), Some(7));
    assert_eq!(t.tot_orig, 110);
    assert_eq!(t.tot_ours, 49);
    assert_eq!(t.tot_zstd, 58);
    assert_eq!(t.tot_xz, 7);
    assert!(t.have_zstd);
    assert!(!t.have_xz);
    assert_eq!(exit_code(2, &t), 0);
    t.add(&Outcome { orig: 1, ours: 1, lossless: false }, None, None);
    assert!(!t.all_lossless);
    assert!(!t.have_zstd);
    assert_eq!(exit_code(3, &t), 1);
}

#[test]
fn byte_comparison() {
    assert!(same_bytes(b"abc", b"abc"));
    assert!(!same_bytes(b"abc", b"abd"));
    assert!(!same_bytes(b"abc", b"ab"));
    assert!(same_bytes(b"", b""));
}

#[test]
fn entries_hold_their_baselines() {
    let e = Entry { name: "x.bin".to_string(), data: vec![1, 2, 3], zstd22: Some(9), xz9e: None };
    let o = evaluate(&e.data);
    assert!(o.lossless);
    assert_eq!(o.orig, 3);
    assert_eq!(e.name, "x.bin");
}

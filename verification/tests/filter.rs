//! The x86 branch filter.

use lib::algorithm::filter::{e8e9, want_e8e9};

#[test]
fn encodes_relative_operand_as_absolute() {
    let mut b = vec![0xE8, 1, 0, 0, 0, 0x90];
    e8e9(&mut b, true);
    assert_eq!(b, vec![0xE8, 6, 0, 0, 0, 0x90]);
    e8e9(&mut b, false);
    assert_eq!(b, vec![0xE8, 1, 0, 0, 0, 0x90]);
}

#[test]
fn operand_wraps_modulo_2_32() {
    let mut b = vec![0x90, 0xE9, 0xff, 0xff, 0xff, 0xff];
    e8e9(&mut b, true);
    // -1 + (1 + 5) = 5
    assert_eq!(b, vec![0x90, 0xE9, 5, 0, 0, 0]);
}

#[test]
fn operand_bytes_are_skipped() {
    // The E8 inside the first operand is not itself treated as an opcode.
    let mut b = vec![0xE8, 0xE8, 0, 0, 0, 0];
    e8e9(&mut b, true);
    assert_eq!(b, vec![0xE8, 0xED, 0, 0, 0, 0]);
}

#[test]
fn short_inputs_untouched() {
    let mut b = vec![0xE8, 1, 2, 3];
    e8e9(&mut b, true);
    assert_eq!(b, vec![0xE8, 1, 2, 3]);
}

#[test]
fn filter_round_trips() {
    let mut v: Vec<u8> = (0..2000u32).map(|i| (i * 37 % 251) as u8).collect();
    for i in (0..2000).step_by(7) {
        v[i] = 0xE8;
    }
    let orig = v.clone();
    e8e9(&mut v, true);
    assert_ne!(v, orig);
    e8e9(&mut v, false);
    assert_eq!(v, orig);
}

#[test]
fn detection() {
    assert!(want_e8e9(b"MZ\x90\x00"));
    assert!(!want_e8e9(b"MZ\x90"));
    assert!(want_e8e9(&[0x7f, b'E', b'L', b'F']));
    let mut v = vec![0u8; 200];
    v[3] = 0xE8;
    assert!(!want_e8e9(&v));
    let mut w = vec![0u8; 199];
    w[3] = 0xE9;
    assert!(want_e8e9(&w));
    assert!(!want_e8e9(&[]));
}

//! The arithmetic coder on its own.

use lib::algorithm::coder::{Decoder, Encoder};

#[test]
fn encoder_exact_stream() {
    let ps = [2048, 100, 4000, 3000, 1, 4094, 2048, 2048, 500, 60000];
    let bits = [1, 0, 1, 1, 0, 1, 0, 0, 1, 1];
    let mut e = Encoder::new();
    for k in 0..ps.len() {
        e.encode(ps[k], bits[k]);
    }
    assert_eq!(e.finish(), vec![70, 21, 254, 228]);
}

#[test]
fn single_bit_streams() {
    let mut e = Encoder::new();
    e.encode(2048, 1);
    assert_eq!(e.finish(), vec![0, 0, 0, 0]);
    let mut e = Encoder::new();
    e.encode(2048, 0);
    assert_eq!(e.finish(), vec![128, 0, 0, 0]);
}

#[test]
fn empty_stream_is_the_low_bound() {
    assert_eq!(Encoder::new().finish(), vec![0, 0, 0, 0]);
}

#[test]
fn decoder_recovers_bits() {
    let ps = [2048, 100, 4000, 3000, 1, 4094, 2048, 2048, 500, 60000, -5, 7];
    let bits = [1, 0, 1, 1, 0, 1, 0, 0, 1, 1, 0, 1];
    let mut e = Encoder::new();
    for k in 0..ps.len() {
        e.encode(ps[k], bits[k]);
    }
    let s = e.finish();
    let mut d = Decoder::new(&s);
    for k in 0..ps.len() {
        assert_eq!(d.decode(ps[k]), bits[k]);
    }
}

#[test]
fn nonzero_bit_codes_a_one() {
    let mut a = Encoder::new();
    a.encode(1000, 7);
    let mut b = Encoder::new();
    b.encode(1000, 1);
    assert_eq!(a.finish(), b.finish());
}

#[test]
fn long_skewed_run_round_trips() {
    let mut e = Encoder::new();
    for k in 0..5000 {
        e.encode(4000, if k % 97 == 0 { 0 } else { 1 });
    }
    let s = e.finish();
    assert!(s.len() < 200);
    let mut d = Decoder::new(&s);
    for k in 0..5000 {
        assert_eq!(d.decode(4000), if k % 97 == 0 { 0 } else { 1 });
    }
}

#[test]
fn empty_and_all_ff_streams_read_zeros() {
    let mut d = Decoder::new(&[]);
    for k in 0..200 {
        assert_eq!(d.decode((k * 37 % 5000) - 300), 0);
    }
    let ff = vec![0xffu8; 10];
    let mut d = Decoder::new(&ff);
    for k in 0..200 {
        assert_eq!(d.decode(k * 13 % 4096), 0);
    }
}

#[test]
fn trailing_ff_reads_like_the_end() {
    let s = vec![0x12u8, 0x9a, 0x00, 0x77, 0x31];
    let mut t = s.clone();
    t.extend_from_slice(&[0xff; 6]);
    let mut a = Decoder::new(&s);
    let mut b = Decoder::new(&t);
    for k in 0..300 {
        let p = (k * 911 % 4096) as i32;
        assert_eq!(a.decode(p), b.decode(p));
    }
}

#[test]
fn encode_emits_at_most_four_bytes_per_bit() {
    let mut e = Encoder::new();
    let mut bits = 0usize;
    for k in 0..400 {
        e.encode(if k % 2 == 0 { 1 } else { 4094 }, (k % 3 == 0) as i32);
        bits += 1;
    }
    assert!(e.finish().len() <= 4 * bits + 4);
}

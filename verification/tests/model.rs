//! The context-mixing predictor and its components.

use lib::algorithm::model::cm::Cm;
use lib::algorithm::model::mixer::Mixer;
use lib::algorithm::tables::build;
use lib::algorithm::model::hashing::{cls4, hashk, next_state};

fn feed(cm: &mut Cm, data: &[u8]) -> Vec<i32> {
    let mut ps = Vec::new();
    for &ch in data {
        for b in (0..8).rev() {
            let bit = ((ch >> b) & 1) as i32;
            let p = cm.predict();
            ps.push(p);
            cm.update(bit, p);
        }
    }
    ps
}

#[test]
fn predictions_are_16_bit_probabilities() {
    let mut cm = Cm::new(64);
    cm.byte_start();
    let ps = feed(&mut cm, b"hello, hello, hello");
    for p in ps {
        assert!(1 <= p && p <= 65534);
    }
}

#[test]
fn same_bits_same_predictions() {
    let data = b"abracadabra abracadabra";
    let first = {
        let mut a = Cm::new(100);
        a.byte_start();
        feed(&mut a, data)
    };
    let second = {
        let mut b = Cm::new(100);
        b.byte_start();
        feed(&mut b, data)
    };
    assert_eq!(first, second);
}

#[test]
fn first_prediction_is_even() {
    // Every input is 0 before anything is learned, so each stage passes 1/2 on.
    let mut cm = Cm::new(0);
    cm.byte_start();
    assert_eq!(cm.predict(), 32768);
}

#[test]
fn learns_a_constant_stream() {
    let mut cm = Cm::new(4000);
    cm.byte_start();
    let ps = feed(&mut cm, &vec![0u8; 2000]);
    // After many zero bits the model is confident the next one is zero.
    let last = *ps.last().unwrap();
    assert!(last < 2000, "last prediction {}", last);
}

#[test]
fn hash_mixing() {
    assert_eq!(hashk(0, 0), 2654435761);
    assert_eq!(hashk(1, 2), 2027808452);
}

#[test]
fn character_classes() {
    // letter, digit, space, other from the lowest byte up, two bits each
    assert_eq!(cls4(u32::from_le_bytes([b'a', b'5', b' ', b'#'])), 1 | (2 << 2) | (3 << 4) | (0 << 6));
    assert_eq!(cls4(0), 0);
}

#[test]
fn bit_history_states() {
    // n0 in the high nibble, n1 in the low nibble
    let mut s = 0u8;
    let mut ones = Vec::new();
    for _ in 0..4 {
        s = next_state(s, 1);
        ones.push(s);
    }
    assert_eq!(ones, vec![0x01, 0x02, 0x03, 0x04]);
    let mut t = 0u8;
    let mut zeros = Vec::new();
    for _ in 0..4 {
        t = next_state(t, 0);
        zeros.push(t);
    }
    assert_eq!(zeros, vec![0x10, 0x20, 0x30, 0x40]);
    // the observed count grows, the other is cut down to at most 3
    assert_eq!(next_state(0x52, 1), 0x33);
    assert_eq!(next_state(0x25, 0), 0x33);
    assert_eq!(next_state(0x73, 0), 0x83);
    // both counts saturate at 15
    assert_eq!(next_state(0xF5, 0), 0xF3);
    assert_eq!(next_state(0x2F, 1), 0x2F);
}

#[test]
fn mixer_logits() {
    let (_, sq) = build();
    let mut m = Mixer::new(2, 1, 8);
    assert_eq!(m.mix(&[100, 300], &sq, 0), 200);
    let mut m2 = Mixer::new(2, 1, 8);
    // large inputs: the logit saturates; the context is masked to the one row
    assert_eq!(m2.mix(&[4000, 4000], &sq, 5), 2047);
}

#[test]
fn byte_start_twice_changes_nothing() {
    let data = b"the cat sat on the mat; the cat sat";
    let once = {
        let mut a = Cm::new(100);
        a.byte_start();
        feed(&mut a, data)
    };
    let twice = {
        let mut b = Cm::new(100);
        b.byte_start();
        b.byte_start();
        feed(&mut b, data)
    };
    assert_eq!(once, twice);
}

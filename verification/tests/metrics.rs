//! Meter workloads.

use lib::metrics::{compress_prefix, compress_prefix_he, high_entropy};

#[test]
fn entropy_stream_bytes() {
    assert_eq!(high_entropy(8), vec![161, 128, 114, 81, 116, 31, 201, 65]);
    assert_eq!(high_entropy(0), Vec::<u8>::new());
}

#[test]
fn prefix_sizes() {
    assert_eq!(compress_prefix_he(0), 13);
    assert_eq!(compress_prefix(b"abc", 0), 13);
    assert_eq!(compress_prefix(b"abc", 1000), lib::compress(b"abc").len() as u32);
    assert_eq!(compress_prefix_he(64), lib::compress(&high_entropy(64)).len() as u32);
}

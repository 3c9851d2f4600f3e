//! Losslessness on synthetic and adversarial inputs.

use lib::{compress, decompress};

fn rt(data: &[u8]) {
    let c = compress(data);
    let d = decompress(&c);
    assert!(
        d == data,
        "round-trip failed: len={} (got {} bytes back)",
        data.len(),
        d.len()
    );
}

// Simple deterministic generator so the tests need no dependencies.
struct Rng(u64);

impl Rng {
    fn next(&mut self) -> u64 {
        self.0 ^= self.0 << 13;
        self.0 ^= self.0 >> 7;
        self.0 ^= self.0 << 17;
        self.0
    }

    fn bytes(&mut self, n: usize) -> Vec<u8> {
        (0..n).map(|_| (self.next() & 0xff) as u8).collect()
    }
}

#[test]
fn empty() {
    rt(&[]);
}

#[test]
fn single_bytes() {
    for b in [0u8, 1, 0x7f, 0x80, 0xE8, 0xE9, 0xff] {
        rt(&[b]);
    }
}

#[test]
fn tiny_lengths_0_to_10() {
    let v: Vec<u8> = (0..40u8).collect();
    for n in 0..=10 {
        rt(&v[..n]);
    }
}

#[test]
fn tiny_lengths_11_to_20() {
    let v: Vec<u8> = (0..40u8).collect();
    for n in 11..=20 {
        rt(&v[..n]);
    }
}

#[test]
fn tiny_lengths_21_to_30() {
    let v: Vec<u8> = (0..40u8).collect();
    for n in 21..=30 {
        rt(&v[..n]);
    }
}

#[test]
fn tiny_lengths_31_to_40() {
    let v: Vec<u8> = (0..40u8).collect();
    for n in 31..=40 {
        rt(&v[..n]);
    }
}

#[test]
fn all_same_short() {
    for b in [0u8, 0x41, 0xff] {
        rt(&vec![b; 12000]);
    }
}

#[test]
fn random_short() {
    let mut r = Rng(0xDEAD_BEEF);
    for n in [1usize, 7, 256, 4096] {
        rt(&r.bytes(n));
    }
}

#[test]
fn repetitive_short() {
    let pat = b"the quick brown fox 0123456789 ";
    let mut v = Vec::new();
    while v.len() < 12000 {
        v.extend_from_slice(pat);
    }
    rt(&v);
}

#[test]
fn text_short() {
    let mut v = Vec::new();
    let words = ["alpha ", "beta ", "gamma ", "delta. ", "epsilon\n"];
    let mut r = Rng(42);
    while v.len() < 3000 {
        v.extend_from_slice(words[(r.next() as usize) % words.len()].as_bytes());
    }
    rt(&v);
}

#[test]
fn e8e9_heavy_short() {
    // Many 0xE8 bytes behind an MZ header: the filter path.
    let mut r = Rng(7);
    let mut v = vec![b'M', b'Z'];
    for _ in 0..600 {
        v.push(0xE8);
        v.extend_from_slice(&r.bytes(4));
    }
    rt(&v);
}

#[test]
fn elf_header_and_branch_density() {
    // An ELF magic turns the filter on; so does one branch opcode per 199 bytes.
    let mut v = vec![0x7f, b'E', b'L', b'F'];
    v.extend_from_slice(&[0xE9, 1, 2, 3, 4, 9, 9]);
    rt(&v);
    let mut w = vec![0u8; 199];
    w[10] = 0xE8;
    rt(&w);
}

#[test]
fn empty_stream_layout() {
    // Length 0, no filter, and the coder's four flush bytes.
    assert_eq!(compress(&[]), vec![0u8; 13]);
    assert_eq!(decompress(&[]), Vec::<u8>::new());
}

#[test]
fn header_layout() {
    let c = compress(&[7u8; 300]);
    assert_eq!(&c[0..8], &[44, 1, 0, 0, 0, 0, 0, 0]);
    assert_eq!(c[8], 0);
    let e = compress(b"MZ\x00\x00");
    assert_eq!(&e[0..8], &[4, 0, 0, 0, 0, 0, 0, 0]);
    assert_eq!(e[8], 1);
}

#[test]
fn short_streams_decode_to_nothing() {
    for n in 0..9usize {
        assert_eq!(decompress(&vec![0xffu8; n]), Vec::<u8>::new());
    }
}

#[test]
fn arbitrary_body_decodes_to_header_length() {
    // Any body decodes to as many bytes as the header announces.
    let mut s = vec![5u8, 0, 0, 0, 0, 0, 0, 0, 0];
    s.extend_from_slice(&[0x12, 0x34, 0x56]);
    assert_eq!(decompress(&s).len(), 5);
}

#[test]
fn compresses_redundant_input() {
    // Compressible data must actually shrink.
    let data = vec![0u8; 50_000];
    assert!(compress(&data).len() < data.len() / 10);
}

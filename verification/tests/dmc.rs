//! The dynamic Markov model.

use lib::algorithm::dmc::Dmc;
use lib::algorithm::tables::build;

fn probs(d: &mut Dmc, data: &[u8], stretch: &[i32]) -> Vec<i32> {
    let mut out = Vec::new();
    for &byte in data {
        for j in (0..8).rev() {
            let bit = ((byte >> j) & 1) as i32;
            out.push(d.predict(stretch));
            assert!(d.safe_to_update(bit));
            d.update(bit);
        }
    }
    out
}

#[test]
fn fresh_model_predicts_even() {
    let (stretch, _) = build();
    let d = Dmc::new(2, 2);
    assert_eq!(d.predict(&stretch), stretch[2048]);
    assert_eq!(d.predict(&stretch), 0);
}

#[test]
fn counts_and_clones() {
    // With an identity "stretch" the predictions are the 12-bit probabilities.
    let identity: Vec<i32> = (0..4096).collect();
    let mut d = Dmc::new(1, 1);
    let ps = probs(&mut d, b"abab", &identity);
    assert_eq!(
        ps,
        vec![
            2048, 2048, 2048, 2048, 2048, 2048, 2048, 2048, 1024, 3072, 3072, 1024, 1024, 1024, 1024, 2048, 682,
            3413, 3413, 682, 682, 682, 2048, 3072, 1024, 3072, 3072, 1024, 1024, 1024, 2048, 1024,
        ]
    );
}

#[test]
fn high_thresholds_never_clone() {
    let identity: Vec<i32> = (0..4096).collect();
    let mut d = Dmc::new(1000, 1000);
    let ps = probs(&mut d, b"aaaa", &identity);
    // The byte tree only counts: the second 'a' sees each edge once.
    assert_eq!(&ps[8..16], &[1024, 3072, 3072, 1024, 1024, 1024, 1024, 3072]);
}

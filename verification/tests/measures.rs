use openml::error::Error;
use openml::measure_accumulator::{
    combinations, AdjustedRandIndex, MeasureAccumulator, PredictiveAccuracy, RandIndex, Ratio,
};

fn adjusted(parts: &RandIndex) -> f64 {
    let expected_ri =
        (parts.known_pairs as f64) * (parts.predicted_pairs as f64) / parts.total_pairs as f64;
    let max_ri = (parts.known_pairs + parts.predicted_pairs) as f64 / 2.0;
    (parts.index as f64 - expected_ri) / (max_ri - expected_ri)
}

#[test]
fn ari() {
    let labels_true = [0, 0, 0, 1, 1, 1];
    let labels_pred = [0, 0, 1, 1, 2, 2];

    let mut ari = AdjustedRandIndex::new();
    assert_eq!(ari.update(&labels_true, &labels_pred), Ok(()));

    let parts = ari.result().unwrap();
    assert_eq!(
        parts,
        RandIndex { index: 2, known_pairs: 6, predicted_pairs: 3, total_pairs: 15 }
    );
    assert_eq!(adjusted(&parts), 0.24242424242424246);
}

#[test]
fn ari_of_perfect_agreement() {
    let mut ari: AdjustedRandIndex<u8> = AdjustedRandIndex::new();
    assert_eq!(ari.update(&[0, 0, 1, 1], &[5, 5, 7, 7]), Ok(()));
    let parts = ari.result().unwrap();
    assert_eq!(
        parts,
        RandIndex { index: 2, known_pairs: 2, predicted_pairs: 2, total_pairs: 6 }
    );
    assert_eq!(adjusted(&parts), 1.0);
}

#[test]
fn ari_does_not_depend_on_order() {
    let mut forward: AdjustedRandIndex<i32> = AdjustedRandIndex::new();
    let mut backward: AdjustedRandIndex<i32> = AdjustedRandIndex::new();
    let known = [0, 0, 0, 1, 1, 1];
    let pred = [0, 0, 1, 1, 2, 2];
    for i in 0..6 {
        forward.update_one(&known[i], &pred[i]);
        backward.update_one(&known[5 - i], &pred[5 - i]);
    }
    assert_eq!(forward.result(), backward.result());
}

#[test]
fn ari_needs_two_observations() {
    let mut ari: AdjustedRandIndex<u8> = AdjustedRandIndex::new();
    assert_eq!(ari.result(), Err(Error::DegenerateMeasure));
    ari.update_one(&1, &1);
    assert_eq!(ari.result(), Err(Error::DegenerateMeasure));
}

#[test]
fn ari_is_degenerate_where_expected_equals_maximum() {
    // one group on each side: every pair is alike in both labellings
    let mut ari: AdjustedRandIndex<u8> = AdjustedRandIndex::new();
    assert_eq!(ari.update(&[3, 3, 3], &[9, 9, 9]), Ok(()));
    assert_eq!(ari.result(), Err(Error::DegenerateMeasure));
    // no two rows alike on either side
    let mut ari: AdjustedRandIndex<u8> = AdjustedRandIndex::new();
    assert_eq!(ari.update(&[1, 2, 3], &[4, 5, 6]), Ok(()));
    assert_eq!(ari.result(), Err(Error::DegenerateMeasure));
}

#[test]
fn ari_update_refuses_unequal_lengths() {
    let mut ari: AdjustedRandIndex<u8> = AdjustedRandIndex::new();
    assert_eq!(ari.update(&[1, 2], &[1]), Err(Error::LengthMismatch));
    assert_eq!(ari.result(), Err(Error::DegenerateMeasure));
}

#[test]
fn combinations_counts_pairs() {
    assert_eq!(combinations(0), 0);
    assert_eq!(combinations(1), 0);
    assert_eq!(combinations(2), 1);
    assert_eq!(combinations(3), 3);
    assert_eq!(combinations(6), 15);
    assert_eq!(combinations(7), 21);
    assert_eq!(combinations(65535), 2147385345);
}

#[test]
fn accuracy_of_four() {
    let mut acc: PredictiveAccuracy<i32> = PredictiveAccuracy::new();
    assert_eq!(acc.update(&[1, 1, 0, 0], &[1, 0, 0, 0]), Ok(()));
    let ratio = acc.result().unwrap();
    assert_eq!(ratio, Ratio { numerator: 3, denominator: 4 });
    assert_eq!(ratio.numerator as f64 / ratio.denominator as f64, 0.75);
}

#[test]
fn accuracy_without_observations_is_degenerate() {
    let acc: PredictiveAccuracy<u8> = PredictiveAccuracy::new();
    assert_eq!(acc.result(), Err(Error::DegenerateMeasure));
}

#[test]
fn accuracy_counts_one_by_one() {
    let mut acc: PredictiveAccuracy<char> = PredictiveAccuracy::new();
    acc.update_one(&'a', &'b');
    assert_eq!(acc.result(), Ok(Ratio { numerator: 0, denominator: 1 }));
    acc.update_one(&'a', &'a');
    assert_eq!(acc.result(), Ok(Ratio { numerator: 1, denominator: 2 }));
    assert_eq!(acc.room(), usize::MAX - 2);
}

#[test]
fn update_refuses_unequal_lengths() {
    let mut acc: PredictiveAccuracy<u8> = PredictiveAccuracy::new();
    acc.update_one(&1, &1);
    assert_eq!(acc.update(&[1, 2, 3], &[1, 2]), Err(Error::LengthMismatch));
    assert_eq!(acc.result(), Ok(Ratio { numerator: 1, denominator: 1 }));
}

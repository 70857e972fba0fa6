use qubit_sim::amplitude::Amplitude;
use qubit_sim::single_qubit::{Prob, SingleQubit};

/// Numeric value of an exact probability fraction.
fn prob_value(p: &Prob) -> f64 {
    (p.num_int as f64 + p.num_rt2 as f64 * 2f64.sqrt()) / p.denom as f64
}

#[test]
fn test_initial_state() {
    let qubit = SingleQubit::new();
    assert!((prob_value(&qubit.prob_zero()) - 1.0).abs() < 1e-10);
    assert!(prob_value(&qubit.prob_one()).abs() < 1e-10);
}

#[test]
fn test_normalization() {
    let mut qubit = SingleQubit {
        alpha: Amplitude::from_gauss(3, 0),
        beta: Amplitude::from_gauss(4, 0),
        denom_sq: 1,
    };
    qubit.normalize();
    let total_prob = prob_value(&qubit.prob_zero()) + prob_value(&qubit.prob_one());
    assert!((total_prob - 1.0).abs() < 1e-10);
}

#[test]
fn test_new_one_exact() {
    let qubit = SingleQubit::new_one();
    let pz = qubit.prob_zero();
    let po = qubit.prob_one();
    assert_eq!((pz.num_int, pz.num_rt2, pz.denom), (0, 0, 1));
    assert_eq!((po.num_int, po.num_rt2, po.denom), (1, 0, 1));
}

#[test]
fn test_default_is_ket_zero() {
    let qubit = SingleQubit::default();
    assert_eq!(qubit, SingleQubit::new());
}

#[test]
fn test_from_amplitudes_three_four_exact() {
    // A 3-4-5 triangle normalizes to the exact fractions 9/25 and 16/25.
    let qubit = SingleQubit::from_amplitudes(3, 0, 4, 0);
    let pz = qubit.prob_zero();
    let po = qubit.prob_one();
    assert_eq!((pz.num_int, pz.num_rt2, pz.denom), (9, 0, 25));
    assert_eq!((po.num_int, po.num_rt2, po.denom), (16, 0, 25));
    assert!((prob_value(&pz) + prob_value(&po) - 1.0).abs() < 1e-10);
}

#[test]
fn test_from_amplitudes_complex_inputs() {
    // |1+2i|^2 + |3-4i|^2 == 5 + 25 == 30.
    let qubit = SingleQubit::from_amplitudes(1, 2, 3, -4);
    let pz = qubit.prob_zero();
    let po = qubit.prob_one();
    assert_eq!((pz.num_int, pz.num_rt2, pz.denom), (5, 0, 30));
    assert_eq!((po.num_int, po.num_rt2, po.denom), (25, 0, 30));
}

#[test]
fn test_from_amplitudes_zero_is_degenerate() {
    // The documented edge case: a zero input vector is returned raw, not
    // normalized; it is not a valid physical state.
    let qubit = SingleQubit::from_amplitudes(0, 0, 0, 0);
    let pz = qubit.prob_zero();
    let po = qubit.prob_one();
    assert_eq!((pz.num_int, pz.num_rt2, pz.denom), (0, 0, 1));
    assert_eq!((po.num_int, po.num_rt2, po.denom), (0, 0, 1));
}

#[test]
fn test_normalize_is_idempotent() {
    let mut qubit = SingleQubit::from_amplitudes(3, 0, 4, 0);
    let before = qubit;
    qubit.normalize();
    assert_eq!(qubit, before);
}

use qubit_sim::amplitude::Amplitude;
use qubit_sim::gates::{
    h_gate, rx_gate, ry_gate, rz_gate, s_gate, t_gate, x_gate, y_gate, z_gate,
};
use qubit_sim::single_qubit::{Gate, Prob, SingleQubit};

/// Numeric value of an exact probability fraction.
fn prob_value(p: &Prob) -> f64 {
    (p.num_int as f64 + p.num_rt2 as f64 * 2f64.sqrt()) / p.denom as f64
}

/// Exact equality of two probability fractions, by cross-multiplication in
/// 128-bit arithmetic.
fn same_prob(a: &Prob, b: &Prob) -> bool {
    (a.num_int as i128) * (b.denom as i128) == (b.num_int as i128) * (a.denom as i128)
        && (a.num_rt2 as i128) * (b.denom as i128) == (b.num_rt2 as i128) * (a.denom as i128)
}

#[test]
fn test_x_gate() {
    let mut qubit = SingleQubit::new();
    x_gate(&mut qubit);
    assert!((prob_value(&qubit.prob_zero()) - 0.0).abs() < 1e-10);
    assert!((prob_value(&qubit.prob_one()) - 1.0).abs() < 1e-10);
}

#[test]
fn test_h_gate() {
    let mut qubit = SingleQubit::new();
    h_gate(&mut qubit);
    assert!((prob_value(&qubit.prob_zero()) - 0.5).abs() < 1e-10);
    assert!((prob_value(&qubit.prob_one()) - 0.5).abs() < 1e-10);
}

#[test]
fn test_x_twice_identity() {
    let mut qubit = SingleQubit::new();
    x_gate(&mut qubit);
    x_gate(&mut qubit);
    assert!((prob_value(&qubit.prob_zero()) - 1.0).abs() < 1e-10);
}

#[test]
fn test_x_on_zero_exact() {
    // X on |0> gives exactly prob_zero == 0 and prob_one == 1.
    let mut qubit = SingleQubit::new();
    x_gate(&mut qubit);
    let pz = qubit.prob_zero();
    let po = qubit.prob_one();
    assert_eq!((pz.num_int, pz.num_rt2, pz.denom), (0, 0, 1));
    assert_eq!((po.num_int, po.num_rt2, po.denom), (1, 0, 1));
}

#[test]
fn test_x_twice_exact_on_superposition() {
    // X is self-inverse: the state itself comes back, field for field.
    let mut qubit = SingleQubit::from_amplitudes(1, 2, 3, -4);
    let before = qubit;
    x_gate(&mut qubit);
    x_gate(&mut qubit);
    assert_eq!(qubit, before);
}

#[test]
fn test_h_on_zero_exact_half() {
    // H on |0> gives exactly 1/2 and 1/2.
    let mut qubit = SingleQubit::new();
    h_gate(&mut qubit);
    let pz = qubit.prob_zero();
    let po = qubit.prob_one();
    assert_eq!((pz.num_int, pz.num_rt2, pz.denom), (1, 0, 2));
    assert_eq!((po.num_int, po.num_rt2, po.denom), (1, 0, 2));
}

#[test]
fn test_y_gate_swaps_probabilities() {
    let mut qubit = SingleQubit::from_amplitudes(3, 0, 4, 0);
    y_gate(&mut qubit);
    let pz = qubit.prob_zero();
    let po = qubit.prob_one();
    assert_eq!((pz.num_int, pz.num_rt2, pz.denom), (16, 0, 25));
    assert_eq!((po.num_int, po.num_rt2, po.denom), (9, 0, 25));
}

#[test]
fn test_z_gate_keeps_probabilities() {
    let mut qubit = SingleQubit::from_amplitudes(3, 0, 4, 0);
    let pz0 = qubit.prob_zero();
    let po0 = qubit.prob_one();
    z_gate(&mut qubit);
    assert!(same_prob(&qubit.prob_zero(), &pz0));
    assert!(same_prob(&qubit.prob_one(), &po0));
}

#[test]
fn test_s_t_gates_keep_probabilities() {
    // S and T only add phases: on H|0> the probabilities stay exactly 1/2.
    let mut qubit = SingleQubit::new();
    h_gate(&mut qubit);
    let pz0 = qubit.prob_zero();
    s_gate(&mut qubit);
    assert!(same_prob(&qubit.prob_zero(), &pz0));
    t_gate(&mut qubit);
    assert!(same_prob(&qubit.prob_zero(), &pz0));
    assert!((prob_value(&qubit.prob_zero()) - 0.5).abs() < 1e-10);
    assert!((prob_value(&qubit.prob_one()) - 0.5).abs() < 1e-10);
}

#[test]
fn test_rz_gate_keeps_probabilities_every_angle() {
    // RZ only alters phases, for every angle on the quarter-turn grid,
    // negative angles included; tried on a state with sqrt(2) parts.
    for quarter_turns in [-13i64, -8, -3, -1, 0, 1, 2, 3, 4, 5, 6, 7, 8, 11] {
        let mut qubit = SingleQubit::new();
        h_gate(&mut qubit);
        t_gate(&mut qubit);
        let pz0 = qubit.prob_zero();
        let po0 = qubit.prob_one();
        rz_gate(&mut qubit, quarter_turns);
        assert!(same_prob(&qubit.prob_zero(), &pz0));
        assert!(same_prob(&qubit.prob_one(), &po0));
    }
}

#[test]
fn test_rz_negative_angle_matches_modulo_eight() {
    // RZ is periodic with period 4*pi (8 quarter turns): -1 and 7 build the
    // same matrix, so the resulting states agree field for field.
    let mut a = SingleQubit::from_amplitudes(1, 2, 3, -4);
    let mut b = a;
    rz_gate(&mut a, -1);
    rz_gate(&mut b, 7);
    assert_eq!(a, b);
}

#[test]
fn test_rx_gate_half_turn() {
    // RX(pi/2) on |0> gives an equal superposition, exactly.
    let mut qubit = SingleQubit::new();
    rx_gate(&mut qubit, 1);
    let pz = qubit.prob_zero();
    let po = qubit.prob_one();
    assert!((prob_value(&pz) - 0.5).abs() < 1e-10);
    assert!((prob_value(&po) - 0.5).abs() < 1e-10);
    assert_eq!(pz.num_int * 2, pz.denom);
    assert_eq!(pz.num_rt2, 0);
}

#[test]
fn test_rx_gate_full_turn_is_not() {
    // RX(pi) acts as X up to phase: |0> goes exactly to |1>.
    let mut qubit = SingleQubit::new();
    rx_gate(&mut qubit, 2);
    let pz = qubit.prob_zero();
    let po = qubit.prob_one();
    assert_eq!(pz.num_int, 0);
    assert_eq!(pz.num_rt2, 0);
    assert_eq!(po.num_int, po.denom);
    assert_eq!(po.num_rt2, 0);
}

#[test]
fn test_ry_gate_half_turn() {
    // RY(pi/2) on |0> gives an equal superposition, exactly.
    let mut qubit = SingleQubit::new();
    ry_gate(&mut qubit, 1);
    let pz = qubit.prob_zero();
    let po = qubit.prob_one();
    assert!((prob_value(&pz) - 0.5).abs() < 1e-10);
    assert!((prob_value(&po) - 0.5).abs() < 1e-10);
    assert_eq!(po.num_int * 2, po.denom);
    assert_eq!(po.num_rt2, 0);
}

#[test]
fn test_sequence_hxy_then_yxh_restores_zero() {
    // H, X, Y and then the exact reverse Y, X, H bring |0> back to
    // prob_zero == 1, prob_one == 0, exactly.
    let mut qubit = SingleQubit::new();
    h_gate(&mut qubit);
    x_gate(&mut qubit);
    y_gate(&mut qubit);
    y_gate(&mut qubit);
    x_gate(&mut qubit);
    h_gate(&mut qubit);
    let pz = qubit.prob_zero();
    let po = qubit.prob_one();
    assert_eq!(pz.num_int, pz.denom);
    assert_eq!(pz.num_rt2, 0);
    assert_eq!(po.num_int, 0);
    assert_eq!(po.num_rt2, 0);
}

// One gate per index, so a loop can exercise the whole gate set;
// rotations use one quarter turn.
fn apply_indexed_gate(qubit: &mut SingleQubit, index: usize) {
    match index {
        0 => x_gate(qubit),
        1 => y_gate(qubit),
        2 => z_gate(qubit),
        3 => h_gate(qubit),
        4 => s_gate(qubit),
        5 => t_gate(qubit),
        6 => rx_gate(qubit, 1),
        7 => ry_gate(qubit, 3),
        _ => rz_gate(qubit, 5),
    }
}

#[test]
fn test_every_gate_preserves_total_probability() {
    // Unitarity over a grid of states: after each single gate application
    // the two probabilities still sum exactly to one.
    let grid = [
        SingleQubit::new(),
        SingleQubit::new_one(),
        SingleQubit::from_amplitudes(3, 0, 4, 0),
        SingleQubit::from_amplitudes(1, 2, 3, -4),
        SingleQubit::from_amplitudes(-5, 12, 0, 0),
        {
            let mut q = SingleQubit::new();
            h_gate(&mut q);
            t_gate(&mut q);
            q
        },
    ];
    for start in grid.iter() {
        for index in 0..9usize {
            let mut qubit = *start;
            apply_indexed_gate(&mut qubit, index);
            let pz = qubit.prob_zero();
            let po = qubit.prob_one();
            assert_eq!(pz.num_int + po.num_int, pz.denom);
            assert_eq!(pz.num_rt2 + po.num_rt2, 0);
        }
    }
}

#[test]
fn test_apply_gate_without_validation_drifts() {
    // apply_gate does not check unitarity: a non-unitary matrix silently
    // breaks the normalization invariant, the documented design boundary.
    let mut qubit = SingleQubit::new();
    let double = Gate {
        m00: Amplitude::from_gauss(2, 0),
        m01: Amplitude::from_gauss(0, 0),
        m10: Amplitude::from_gauss(0, 0),
        m11: Amplitude::from_gauss(2, 0),
        denom_sq: 1,
    };
    qubit.apply_gate(double);
    let pz = qubit.prob_zero();
    let po = qubit.prob_one();
    assert_eq!((pz.num_int, pz.denom), (4, 1));
    assert_eq!(po.num_int, 0);
}

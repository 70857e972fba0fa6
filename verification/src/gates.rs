//! The standard single-qubit gate library.
//!
//! Each gate builds its exact 2x2 matrix and delegates to
//! [`SingleQubit::apply_gate`], so all gates share one execution path and one
//! place where amplitude arithmetic happens. The proof attached to each gate
//! shows that its matrix is unitary: a well-formed state stays well-formed,
//! exactly, after every application.
//!
//! Rotation angles are quarter turns: `rx_gate(q, k)` rotates by `k * pi/2`
//! radians. These are exactly the angles whose rotation matrices stay inside
//! the ring Z[sqrt(2), i]; an angle outside this grid has transcendental
//! matrix entries, which no exact representation can carry.

use vstd::prelude::*;
use crate::amplitude::{
    Amplitude, AmpModel, gauss, rt2, c_add, c_sub, c_mul, normsq_int, normsq_rt2,
    lemma_normsq_real_unit, lemma_normsq_imag_unit, lemma_normsq_gauss_unit,
    lemma_normsq_mul_rt2, lemma_parallelogram, lemma_scale_cross,
    lemma_mul_i_round_trip, lemma_add_sub_cancel,
};
use crate::single_qubit::{SingleQubit, StateModel, Gate, GateModel, apply_model, lemma_wf_bounded};

verus! {

/// The Pauli-X (NOT) matrix `[[0, 1], [1, 0]]`: swaps the amplitudes.
pub open spec fn x_gate_model() -> GateModel {
    GateModel {
        m00: gauss(0, 0),
        m01: gauss(1, 0),
        m10: gauss(1, 0),
        m11: gauss(0, 0),
        denom_sq: 1,
    }
}

/// The Pauli-Y matrix `[[0, -i], [i, 0]]`.
pub open spec fn y_gate_model() -> GateModel {
    GateModel {
        m00: gauss(0, 0),
        m01: gauss(0, -1),
        m10: gauss(0, 1),
        m11: gauss(0, 0),
        denom_sq: 1,
    }
}

/// The Pauli-Z matrix `[[1, 0], [0, -1]]`: flips the sign of `beta`.
pub open spec fn z_gate_model() -> GateModel {
    GateModel {
        m00: gauss(1, 0),
        m01: gauss(0, 0),
        m10: gauss(0, 0),
        m11: gauss(-1, 0),
        denom_sq: 1,
    }
}

/// The Hadamard matrix `[[1, 1], [1, -1]] / sqrt(2)`.
pub open spec fn h_gate_model() -> GateModel {
    GateModel {
        m00: gauss(1, 0),
        m01: gauss(1, 0),
        m10: gauss(1, 0),
        m11: gauss(-1, 0),
        denom_sq: 2,
    }
}

/// The phase matrix `[[1, 0], [0, i]]`: multiplies `beta` by `i`.
pub open spec fn s_gate_model() -> GateModel {
    GateModel {
        m00: gauss(1, 0),
        m01: gauss(0, 0),
        m10: gauss(0, 0),
        m11: gauss(0, 1),
        denom_sq: 1,
    }
}

/// The T (pi/8) matrix `[[1, 0], [0, e^{i*pi/4}]]`, written over the common
/// denominator sqrt(2): `[[sqrt(2), 0], [0, 1 + i]] / sqrt(2)`.
pub open spec fn t_gate_model() -> GateModel {
    GateModel {
        m00: rt2(),
        m01: gauss(0, 0),
        m10: gauss(0, 0),
        m11: gauss(1, 1),
        denom_sq: 2,
    }
}

/// The numerator of the eighth root of unity `omega^m = e^{i*m*pi/4}` for
/// `m` in `[0, 8)`: for odd `m` the value carries an implicit denominator
/// `sqrt(2)`.
pub open spec fn omega(m: int) -> AmpModel {
    if m == 0 {
        gauss(1, 0)
    } else if m == 1 {
        gauss(1, 1)
    } else if m == 2 {
        gauss(0, 1)
    } else if m == 3 {
        gauss(-1, 1)
    } else if m == 4 {
        gauss(-1, 0)
    } else if m == 5 {
        gauss(-1, -1)
    } else if m == 6 {
        gauss(0, -1)
    } else {
        gauss(1, -1)
    }
}

/// The RZ rotation by `quarter_turns * pi/2` radians:
/// `[[e^{-i*theta/2}, 0], [0, e^{i*theta/2}]]` with `theta/2` a multiple of
/// `pi/4`, so both entries are eighth roots of unity.
pub open spec fn rz_gate_model(quarter_turns: int) -> GateModel {
    let m = quarter_turns % 8;
    GateModel {
        m00: omega((8 - m) % 8),
        m01: gauss(0, 0),
        m10: gauss(0, 0),
        m11: omega(m),
        denom_sq: if m % 2 == 1 { 2 } else { 1 },
    }
}

/// The state after an RX rotation by `quarter_turns * pi/2`: the exact
/// matrix identity `RX(theta) == H * RZ(theta) * H` lets RX reuse the
/// verified H and RZ applications.
pub open spec fn rx_applied(s: StateModel, quarter_turns: int) -> StateModel {
    apply_model(
        h_gate_model(),
        apply_model(rz_gate_model(quarter_turns), apply_model(h_gate_model(), s)),
    )
}

/// The state after an RY rotation by `quarter_turns * pi/2`: the exact
/// matrix identity `RY(theta) == S * RX(theta) * S^dagger`, with
/// `S^dagger == Z * S`, lets RY reuse the verified S, Z and RX applications.
pub open spec fn ry_applied(s: StateModel, quarter_turns: int) -> StateModel {
    apply_model(
        s_gate_model(),
        rx_applied(
            apply_model(z_gate_model(), apply_model(s_gate_model(), s)),
            quarter_turns,
        ),
    )
}

/// Pauli-X gate (NOT gate): flips `|0> <-> |1>`, swapping the two
/// measurement probabilities exactly.
pub fn x_gate(qubit: &mut SingleQubit)
    requires
        old(qubit)@.bounded(),
    ensures
        final(qubit)@ == apply_model(x_gate_model(), old(qubit)@),
        final(qubit)@.alpha == old(qubit)@.beta,
        final(qubit)@.beta == old(qubit)@.alpha,
        final(qubit)@.denom_sq == old(qubit)@.denom_sq,
        old(qubit)@.wf() ==> final(qubit)@.wf(),
{
    let matrix = Gate {
        m00: Amplitude::from_gauss(0, 0),
        m01: Amplitude::from_gauss(1, 0),
        m10: Amplitude::from_gauss(1, 0),
        m11: Amplitude::from_gauss(0, 0),
        denom_sq: 1,
    };
    qubit.apply_gate(matrix);
}

/// Pauli-Y gate: `alpha' = -i*beta`, `beta' = i*alpha`; like X it swaps the
/// two measurement probabilities, adding a phase.
pub fn y_gate(qubit: &mut SingleQubit)
    requires
        old(qubit)@.bounded(),
    ensures
        final(qubit)@ == apply_model(y_gate_model(), old(qubit)@),
        final(qubit)@.alpha == c_mul(gauss(0, -1), old(qubit)@.beta),
        final(qubit)@.beta == c_mul(gauss(0, 1), old(qubit)@.alpha),
        final(qubit)@.denom_sq == old(qubit)@.denom_sq,
        final(qubit)@.pz_int() == old(qubit)@.po_int(),
        final(qubit)@.pz_rt2() == old(qubit)@.po_rt2(),
        final(qubit)@.po_int() == old(qubit)@.pz_int(),
        final(qubit)@.po_rt2() == old(qubit)@.pz_rt2(),
        old(qubit)@.wf() ==> final(qubit)@.wf(),
{
    let matrix = Gate {
        m00: Amplitude::from_gauss(0, 0),
        m01: Amplitude::from_gauss(0, -1),
        m10: Amplitude::from_gauss(0, 1),
        m11: Amplitude::from_gauss(0, 0),
        denom_sq: 1,
    };
    qubit.apply_gate(matrix);
    proof {
        let s: StateModel = old(qubit)@;
        assert(qubit@.alpha == c_mul(gauss(0, -1), s.beta));
        assert(qubit@.beta == c_mul(gauss(0, 1), s.alpha));
        lemma_normsq_imag_unit(-1, s.beta);
        lemma_normsq_imag_unit(1, s.alpha);
    }
}

/// Pauli-Z gate (phase flip): `|0> -> |0>`, `|1> -> -|1>`; both measurement
/// probabilities are left exactly unchanged.
pub fn z_gate(qubit: &mut SingleQubit)
    requires
        old(qubit)@.bounded(),
    ensures
        final(qubit)@ == apply_model(z_gate_model(), old(qubit)@),
        final(qubit)@.denom_sq == old(qubit)@.denom_sq,
        final(qubit)@.pz_int() == old(qubit)@.pz_int(),
        final(qubit)@.pz_rt2() == old(qubit)@.pz_rt2(),
        final(qubit)@.po_int() == old(qubit)@.po_int(),
        final(qubit)@.po_rt2() == old(qubit)@.po_rt2(),
        old(qubit)@.wf() ==> final(qubit)@.wf(),
{
    let matrix = Gate {
        m00: Amplitude::from_gauss(1, 0),
        m01: Amplitude::from_gauss(0, 0),
        m10: Amplitude::from_gauss(0, 0),
        m11: Amplitude::from_gauss(-1, 0),
        denom_sq: 1,
    };
    qubit.apply_gate(matrix);
    proof {
        let s: StateModel = old(qubit)@;
        assert(qubit@.alpha == c_mul(gauss(1, 0), s.alpha));
        assert(qubit@.beta == c_mul(gauss(-1, 0), s.beta));
        lemma_normsq_real_unit(1, s.alpha);
        lemma_normsq_real_unit(-1, s.beta);
    }
}

/// Hadamard gate: `alpha' = (alpha + beta)/sqrt(2)`,
/// `beta' = (alpha - beta)/sqrt(2)`; creates an equal-magnitude
/// superposition from a basis state. Unitarity is the parallelogram law.
pub fn h_gate(qubit: &mut SingleQubit)
    requires
        old(qubit)@.bounded(),
        old(qubit)@.denom_sq <= 0x800_0000_0000_0000,
    ensures
        final(qubit)@ == apply_model(h_gate_model(), old(qubit)@),
        final(qubit)@.alpha == c_add(old(qubit)@.alpha, old(qubit)@.beta),
        final(qubit)@.beta == c_sub(old(qubit)@.alpha, old(qubit)@.beta),
        final(qubit)@.denom_sq == 2 * old(qubit)@.denom_sq,
        old(qubit)@.wf() ==> final(qubit)@.wf(),
{
    let matrix = Gate {
        m00: Amplitude::from_gauss(1, 0),
        m01: Amplitude::from_gauss(1, 0),
        m10: Amplitude::from_gauss(1, 0),
        m11: Amplitude::from_gauss(-1, 0),
        denom_sq: 2,
    };
    qubit.apply_gate(matrix);
    proof {
        let s: StateModel = old(qubit)@;
        assert(qubit@.alpha == c_add(s.alpha, s.beta));
        assert(qubit@.beta == c_sub(s.alpha, s.beta));
        lemma_parallelogram(s.alpha, s.beta);
    }
}

/// Phase gate (S gate): multiplies `beta` by `i`; both measurement
/// probabilities are left exactly unchanged.
pub fn s_gate(qubit: &mut SingleQubit)
    requires
        old(qubit)@.bounded(),
    ensures
        final(qubit)@ == apply_model(s_gate_model(), old(qubit)@),
        final(qubit)@.denom_sq == old(qubit)@.denom_sq,
        final(qubit)@.pz_int() == old(qubit)@.pz_int(),
        final(qubit)@.pz_rt2() == old(qubit)@.pz_rt2(),
        final(qubit)@.po_int() == old(qubit)@.po_int(),
        final(qubit)@.po_rt2() == old(qubit)@.po_rt2(),
        old(qubit)@.wf() ==> final(qubit)@.wf(),
{
    let matrix = Gate {
        m00: Amplitude::from_gauss(1, 0),
        m01: Amplitude::from_gauss(0, 0),
        m10: Amplitude::from_gauss(0, 0),
        m11: Amplitude::from_gauss(0, 1),
        denom_sq: 1,
    };
    qubit.apply_gate(matrix);
    proof {
        let s: StateModel = old(qubit)@;
        assert(qubit@.alpha == c_mul(gauss(1, 0), s.alpha));
        assert(qubit@.beta == c_mul(gauss(0, 1), s.beta));
        lemma_normsq_real_unit(1, s.alpha);
        lemma_normsq_imag_unit(1, s.beta);
    }
}

/// T gate (pi/8 gate): multiplies `beta` by `e^{i*pi/4} = (1 + i)/sqrt(2)`.
/// Numerators and denominator all double, so both measurement probabilities
/// are left exactly unchanged as fractions.
pub fn t_gate(qubit: &mut SingleQubit)
    requires
        old(qubit)@.bounded(),
        old(qubit)@.denom_sq <= 0x800_0000_0000_0000,
    ensures
        final(qubit)@ == apply_model(t_gate_model(), old(qubit)@),
        final(qubit)@.denom_sq == 2 * old(qubit)@.denom_sq,
        final(qubit)@.pz_int() * old(qubit)@.denom_sq == old(qubit)@.pz_int() * final(qubit)@.denom_sq,
        final(qubit)@.pz_rt2() * old(qubit)@.denom_sq == old(qubit)@.pz_rt2() * final(qubit)@.denom_sq,
        final(qubit)@.po_int() * old(qubit)@.denom_sq == old(qubit)@.po_int() * final(qubit)@.denom_sq,
        final(qubit)@.po_rt2() * old(qubit)@.denom_sq == old(qubit)@.po_rt2() * final(qubit)@.denom_sq,
        old(qubit)@.wf() ==> final(qubit)@.wf(),
{
    let matrix = Gate {
        m00: Amplitude::new(0, 1, 0, 0),
        m01: Amplitude::from_gauss(0, 0),
        m10: Amplitude::from_gauss(0, 0),
        m11: Amplitude::from_gauss(1, 1),
        denom_sq: 2,
    };
    qubit.apply_gate(matrix);
    proof {
        let s: StateModel = old(qubit)@;
        assert(qubit@.alpha == c_mul(rt2(), s.alpha));
        assert(qubit@.beta == c_mul(gauss(1, 1), s.beta));
        lemma_normsq_mul_rt2(s.alpha);
        lemma_normsq_gauss_unit(1, 1, s.beta);
        lemma_scale_cross(2, s.pz_int(), s.denom_sq);
        lemma_scale_cross(2, s.pz_rt2(), s.denom_sq);
        lemma_scale_cross(2, s.po_int(), s.denom_sq);
        lemma_scale_cross(2, s.po_rt2(), s.denom_sq);
    }
}

/// Rotation around the Z axis by `quarter_turns * pi/2` radians. RZ only
/// alters phases: both measurement probabilities are left exactly unchanged
/// as fractions, for every angle.
pub fn rz_gate(qubit: &mut SingleQubit, quarter_turns: i64)
    requires
        old(qubit)@.bounded(),
        old(qubit)@.denom_sq <= 0x800_0000_0000_0000,
    ensures
        final(qubit)@ == apply_model(rz_gate_model(quarter_turns as int), old(qubit)@),
        final(qubit)@.pz_int() * old(qubit)@.denom_sq == old(qubit)@.pz_int() * final(qubit)@.denom_sq,
        final(qubit)@.pz_rt2() * old(qubit)@.denom_sq == old(qubit)@.pz_rt2() * final(qubit)@.denom_sq,
        final(qubit)@.po_int() * old(qubit)@.denom_sq == old(qubit)@.po_int() * final(qubit)@.denom_sq,
        final(qubit)@.po_rt2() * old(qubit)@.denom_sq == old(qubit)@.po_rt2() * final(qubit)@.denom_sq,
        old(qubit)@.wf() ==> final(qubit)@.wf(),
{
    let rem: i64 = quarter_turns % 8;
    let m: i64 = if rem < 0 { rem + 8 } else { rem };
    proof {
        assert(m as int == (quarter_turns as int) % 8);
    }
    let matrix: Gate = if m == 0 {
        Gate {
            m00: Amplitude::from_gauss(1, 0),
            m01: Amplitude::from_gauss(0, 0),
            m10: Amplitude::from_gauss(0, 0),
            m11: Amplitude::from_gauss(1, 0),
            denom_sq: 1,
        }
    } else if m == 1 {
        Gate {
            m00: Amplitude::from_gauss(1, -1),
            m01: Amplitude::from_gauss(0, 0),
            m10: Amplitude::from_gauss(0, 0),
            m11: Amplitude::from_gauss(1, 1),
            denom_sq: 2,
        }
    } else if m == 2 {
        Gate {
            m00: Amplitude::from_gauss(0, -1),
            m01: Amplitude::from_gauss(0, 0),
            m10: Amplitude::from_gauss(0, 0),
            m11: Amplitude::from_gauss(0, 1),
            denom_sq: 1,
        }
    } else if m == 3 {
        Gate {
            m00: Amplitude::from_gauss(-1, -1),
            m01: Amplitude::from_gauss(0, 0),
            m10: Amplitude::from_gauss(0, 0),
            m11: Amplitude::from_gauss(-1, 1),
            denom_sq: 2,
        }
    } else if m == 4 {
        Gate {
            m00: Amplitude::from_gauss(-1, 0),
            m01: Amplitude::from_gauss(0, 0),
            m10: Amplitude::from_gauss(0, 0),
            m11: Amplitude::from_gauss(-1, 0),
            denom_sq: 1,
        }
    } else if m == 5 {
        Gate {
            m00: Amplitude::from_gauss(-1, 1),
            m01: Amplitude::from_gauss(0, 0),
            m10: Amplitude::from_gauss(0, 0),
            m11: Amplitude::from_gauss(-1, -1),
            denom_sq: 2,
        }
    } else if m == 6 {
        Gate {
            m00: Amplitude::from_gauss(0, 1),
            m01: Amplitude::from_gauss(0, 0),
            m10: Amplitude::from_gauss(0, 0),
            m11: Amplitude::from_gauss(0, -1),
            denom_sq: 1,
        }
    } else {
        Gate {
            m00: Amplitude::from_gauss(1, 1),
            m01: Amplitude::from_gauss(0, 0),
            m10: Amplitude::from_gauss(0, 0),
            m11: Amplitude::from_gauss(1, -1),
            denom_sq: 2,
        }
    };
    proof {
        assert(matrix@ == rz_gate_model(quarter_turns as int));
    }
    qubit.apply_gate(matrix);
    proof {
        let s: StateModel = old(qubit)@;
        let t: StateModel = qubit@;
        let mm: int = (quarter_turns as int) % 8;
        if mm == 0 {
            assert(t.alpha == c_mul(gauss(1, 0), s.alpha));
            assert(t.beta == c_mul(gauss(1, 0), s.beta));
            lemma_normsq_real_unit(1, s.alpha);
            lemma_normsq_real_unit(1, s.beta);
        } else if mm == 1 {
            assert(t.alpha == c_mul(gauss(1, -1), s.alpha));
            assert(t.beta == c_mul(gauss(1, 1), s.beta));
            lemma_normsq_gauss_unit(1, -1, s.alpha);
            lemma_normsq_gauss_unit(1, 1, s.beta);
        } else if mm == 2 {
            assert(t.alpha == c_mul(gauss(0, -1), s.alpha));
            assert(t.beta == c_mul(gauss(0, 1), s.beta));
            lemma_normsq_imag_unit(-1, s.alpha);
            lemma_normsq_imag_unit(1, s.beta);
        } else if mm == 3 {
            assert(t.alpha == c_mul(gauss(-1, -1), s.alpha));
            assert(t.beta == c_mul(gauss(-1, 1), s.beta));
            lemma_normsq_gauss_unit(-1, -1, s.alpha);
            lemma_normsq_gauss_unit(-1, 1, s.beta);
        } else if mm == 4 {
            assert(t.alpha == c_mul(gauss(-1, 0), s.alpha));
            assert(t.beta == c_mul(gauss(-1, 0), s.beta));
            lemma_normsq_real_unit(-1, s.alpha);
            lemma_normsq_real_unit(-1, s.beta);
        } else if mm == 5 {
            assert(t.alpha == c_mul(gauss(-1, 1), s.alpha));
            assert(t.beta == c_mul(gauss(-1, -1), s.beta));
            lemma_normsq_gauss_unit(-1, 1, s.alpha);
            lemma_normsq_gauss_unit(-1, -1, s.beta);
        } else if mm == 6 {
            assert(t.alpha == c_mul(gauss(0, 1), s.alpha));
            assert(t.beta == c_mul(gauss(0, -1), s.beta));
            lemma_normsq_imag_unit(1, s.alpha);
            lemma_normsq_imag_unit(-1, s.beta);
        } else {
            assert(t.alpha == c_mul(gauss(1, 1), s.alpha));
            assert(t.beta == c_mul(gauss(1, -1), s.beta));
            lemma_normsq_gauss_unit(1, 1, s.alpha);
            lemma_normsq_gauss_unit(1, -1, s.beta);
        }
        lemma_scale_cross(2, s.pz_int(), s.denom_sq);
        lemma_scale_cross(2, s.pz_rt2(), s.denom_sq);
        lemma_scale_cross(2, s.po_int(), s.denom_sq);
        lemma_scale_cross(2, s.po_rt2(), s.denom_sq);
    }
}

/// Rotation around the X axis by `quarter_turns * pi/2` radians, through the
/// exact identity `RX(theta) == H * RZ(theta) * H`.
pub fn rx_gate(qubit: &mut SingleQubit, quarter_turns: i64)
    requires
        old(qubit)@.wf(),
        old(qubit)@.denom_sq <= 0x200_0000_0000_0000,
    ensures
        final(qubit)@ == rx_applied(old(qubit)@, quarter_turns as int),
        final(qubit)@.wf(),
{
    proof {
        lemma_wf_bounded(old(qubit)@);
    }
    h_gate(qubit);
    proof {
        lemma_wf_bounded(qubit@);
    }
    rz_gate(qubit, quarter_turns);
    proof {
        lemma_wf_bounded(qubit@);
    }
    h_gate(qubit);
}

/// Rotation around the Y axis by `quarter_turns * pi/2` radians, through the
/// exact identity `RY(theta) == S * RX(theta) * S^dagger` with
/// `S^dagger == Z * S`.
pub fn ry_gate(qubit: &mut SingleQubit, quarter_turns: i64)
    requires
        old(qubit)@.wf(),
        old(qubit)@.denom_sq <= 0x200_0000_0000_0000,
    ensures
        final(qubit)@ == ry_applied(old(qubit)@, quarter_turns as int),
        final(qubit)@.wf(),
{
    proof {
        lemma_wf_bounded(old(qubit)@);
    }
    s_gate(qubit);
    proof {
        lemma_wf_bounded(qubit@);
    }
    z_gate(qubit);
    proof {
        lemma_wf_bounded(qubit@);
    }
    rx_gate(qubit, quarter_turns);
    proof {
        lemma_wf_bounded(qubit@);
    }
    s_gate(qubit);
}

/// Field-level effect of the X matrix on a state model.
pub proof fn lemma_x_model(s: StateModel)
    ensures
        apply_model(x_gate_model(), s).alpha =~= s.beta,
        apply_model(x_gate_model(), s).beta =~= s.alpha,
        apply_model(x_gate_model(), s).denom_sq == s.denom_sq,
{
}

/// Field-level effect of the Y matrix on a state model.
pub proof fn lemma_y_model(s: StateModel)
    ensures
        apply_model(y_gate_model(), s).alpha =~= c_mul(gauss(0, -1), s.beta),
        apply_model(y_gate_model(), s).beta =~= c_mul(gauss(0, 1), s.alpha),
        apply_model(y_gate_model(), s).denom_sq == s.denom_sq,
{
}

/// Field-level effect of the Hadamard matrix on a state model.
pub proof fn lemma_h_model(s: StateModel)
    ensures
        apply_model(h_gate_model(), s).alpha =~= c_add(s.alpha, s.beta),
        apply_model(h_gate_model(), s).beta =~= c_sub(s.alpha, s.beta),
        apply_model(h_gate_model(), s).denom_sq == 2 * s.denom_sq,
{
}

/// Applying the Pauli-X gate twice returns any state exactly to itself:
/// X is its own inverse.
pub proof fn lemma_x_twice_identity(s: StateModel)
    ensures
        apply_model(x_gate_model(), apply_model(x_gate_model(), s)) == s,
{
    let s1: StateModel = apply_model(x_gate_model(), s);
    let s2: StateModel = apply_model(x_gate_model(), s1);
    lemma_x_model(s);
    lemma_x_model(s1);
    assert(s2 =~= s);
}

/// The sequence H, X, Y followed by its exact reverse Y, X, H returns any
/// state to its starting measurement probabilities, exactly: the amplitude
/// numerators come back doubled and the denominator multiplied by four, the
/// same complex value.
pub proof fn lemma_hxy_then_yxh_restores(s: StateModel)
    ensures
        ({
            let t = apply_model(
                h_gate_model(),
                apply_model(
                    x_gate_model(),
                    apply_model(
                        y_gate_model(),
                        apply_model(
                            y_gate_model(),
                            apply_model(x_gate_model(), apply_model(h_gate_model(), s)),
                        ),
                    ),
                ),
            );
            &&& t.alpha == c_add(s.alpha, s.alpha)
            &&& t.beta == c_add(s.beta, s.beta)
            &&& t.denom_sq == 4 * s.denom_sq
            &&& t.pz_int() * s.denom_sq == s.pz_int() * t.denom_sq
            &&& t.pz_rt2() * s.denom_sq == s.pz_rt2() * t.denom_sq
            &&& t.po_int() * s.denom_sq == s.po_int() * t.denom_sq
            &&& t.po_rt2() * s.denom_sq == s.po_rt2() * t.denom_sq
        }),
{
    let s1: StateModel = apply_model(h_gate_model(), s);
    let s2: StateModel = apply_model(x_gate_model(), s1);
    let s3: StateModel = apply_model(y_gate_model(), s2);
    let s4: StateModel = apply_model(y_gate_model(), s3);
    let s5: StateModel = apply_model(x_gate_model(), s4);
    let s6: StateModel = apply_model(h_gate_model(), s5);
    lemma_h_model(s);
    lemma_x_model(s1);
    lemma_y_model(s2);
    lemma_y_model(s3);
    lemma_x_model(s4);
    lemma_h_model(s5);
    lemma_mul_i_round_trip(s2.alpha);
    lemma_mul_i_round_trip(s2.beta);
    assert(s4.alpha =~= s2.alpha);
    assert(s4.beta =~= s2.beta);
    assert(s5.alpha =~= s1.alpha);
    assert(s5.beta =~= s1.beta);
    lemma_add_sub_cancel(s.alpha, s.beta);
    assert(s6.alpha =~= c_add(s.alpha, s.alpha));
    assert(s6.beta =~= c_add(s.beta, s.beta));
    assert(s6.denom_sq == 4 * s.denom_sq);
    lemma_parallelogram(s.alpha, s.alpha);
    lemma_parallelogram(s.beta, s.beta);
    assert(c_sub(s.alpha, s.alpha) =~= gauss(0, 0));
    assert(c_sub(s.beta, s.beta) =~= gauss(0, 0));
    assert(normsq_int(gauss(0, 0)) == 0);
    assert(normsq_rt2(gauss(0, 0)) == 0);
    lemma_scale_cross(4, s.pz_int(), s.denom_sq);
    lemma_scale_cross(4, s.pz_rt2(), s.denom_sq);
    lemma_scale_cross(4, s.po_int(), s.denom_sq);
    lemma_scale_cross(4, s.po_rt2(), s.denom_sq);
}

} // verus!


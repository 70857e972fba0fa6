//! The state of a single qubit and its generic gate-application operation.

use vstd::prelude::*;
use crate::amplitude::{
    Amplitude, AmpModel, gauss, c_add, c_mul, normsq_int, normsq_rt2, in_range, amp_add, amp_mul,
    lemma_mul_le, lemma_normsq_nonneg, lemma_amp_bounded,
};

verus! {

/// A single-qubit state `alpha|0> + beta|1>`, held exactly.
///
/// The stored amplitudes are the ring elements `alpha` and `beta` divided by
/// the common denominator `sqrt(denom_sq)`, so the state's squared norm is
/// `(normsq(alpha) + normsq(beta)) / denom_sq`. A well-formed state has that
/// quotient exactly equal to one; see [`StateModel::wf`].
#[derive(Clone, Copy, Debug, PartialEq, Eq, Structural)]
pub struct SingleQubit {
    pub alpha: Amplitude,
    pub beta: Amplitude,
    pub denom_sq: i64,
}

/// The mathematical value of a [`SingleQubit`], over unbounded integers.
#[verifier::ext_equal]
pub ghost struct StateModel {
    pub alpha: AmpModel,
    pub beta: AmpModel,
    pub denom_sq: int,
}

impl View for SingleQubit {
    type V = StateModel;

    open spec fn view(&self) -> StateModel {
        StateModel { alpha: self.alpha@, beta: self.beta@, denom_sq: self.denom_sq as int }
    }
}

/// A 2x2 gate matrix with exact entries over the common denominator
/// `sqrt(denom_sq)`, built fresh for each application and consumed by
/// [`SingleQubit::apply_gate`].
#[derive(Clone, Copy, Debug, PartialEq, Eq, Structural)]
pub struct Gate {
    pub m00: Amplitude,
    pub m01: Amplitude,
    pub m10: Amplitude,
    pub m11: Amplitude,
    pub denom_sq: i64,
}

/// The mathematical value of a [`Gate`].
#[verifier::ext_equal]
pub ghost struct GateModel {
    pub m00: AmpModel,
    pub m01: AmpModel,
    pub m10: AmpModel,
    pub m11: AmpModel,
    pub denom_sq: int,
}

impl View for Gate {
    type V = GateModel;

    open spec fn view(&self) -> GateModel {
        GateModel { m00: self.m00@, m01: self.m01@, m10: self.m10@, m11: self.m11@, denom_sq: self.denom_sq as int }
    }
}

/// An exact measurement probability: the rational-with-sqrt(2) value
/// `(num_int + num_rt2*sqrt(2)) / denom`.
#[derive(Clone, Copy, Debug, PartialEq, Eq, Structural)]
pub struct Prob {
    pub num_int: i64,
    pub num_rt2: i64,
    pub denom: i64,
}

impl StateModel {
    /// The integer part of `denom_sq * (|alpha|^2 + |beta|^2)`.
    pub open spec fn norm_int(self) -> int {
        normsq_int(self.alpha) + normsq_int(self.beta)
    }

    /// The sqrt(2) part of `denom_sq * (|alpha|^2 + |beta|^2)`.
    pub open spec fn norm_rt2(self) -> int {
        normsq_rt2(self.alpha) + normsq_rt2(self.beta)
    }

    /// The normalization invariant: `|alpha|^2 + |beta|^2 == 1`, exactly.
    /// The denominator bound keeps every coordinate within machine range
    /// (see [`lemma_wf_bounded`]).
    pub open spec fn wf(self) -> bool {
        &&& 1 <= self.denom_sq <= 0x1000_0000_0000_0000
        &&& self.norm_int() == self.denom_sq
        &&& self.norm_rt2() == 0
    }

    /// The coordinate bounds under which gate arithmetic cannot overflow.
    pub open spec fn bounded(self) -> bool {
        &&& in_range(self.alpha, 0x4000_0000)
        &&& in_range(self.beta, 0x4000_0000)
        &&& 1 <= self.denom_sq <= 0x1000_0000_0000_0000
    }

    /// Numerator (integer part) of the probability of measuring `|0>`.
    pub open spec fn pz_int(self) -> int {
        normsq_int(self.alpha)
    }

    /// Numerator (sqrt(2) part) of the probability of measuring `|0>`.
    pub open spec fn pz_rt2(self) -> int {
        normsq_rt2(self.alpha)
    }

    /// Numerator (integer part) of the probability of measuring `|1>`.
    pub open spec fn po_int(self) -> int {
        normsq_int(self.beta)
    }

    /// Numerator (sqrt(2) part) of the probability of measuring `|1>`.
    pub open spec fn po_rt2(self) -> int {
        normsq_rt2(self.beta)
    }
}

/// The state `|0>`.
pub open spec fn ket_zero() -> StateModel {
    StateModel { alpha: gauss(1, 0), beta: gauss(0, 0), denom_sq: 1 }
}

/// The state `|1>`.
pub open spec fn ket_one() -> StateModel {
    StateModel { alpha: gauss(0, 0), beta: gauss(1, 0), denom_sq: 1 }
}

/// Matrix application: `alpha' = m00*alpha + m01*beta`,
/// `beta' = m10*alpha + m11*beta`, denominators multiplied.
pub open spec fn apply_model(g: GateModel, s: StateModel) -> StateModel {
    StateModel {
        alpha: c_add(c_mul(g.m00, s.alpha), c_mul(g.m01, s.beta)),
        beta: c_add(c_mul(g.m10, s.alpha), c_mul(g.m11, s.beta)),
        denom_sq: s.denom_sq * g.denom_sq,
    }
}

/// A well-formed state has bounded coordinates: each squared coordinate is
/// at most the squared norm, which equals `denom_sq <= 2^60`.
pub proof fn lemma_wf_bounded(s: StateModel)
    requires
        s.wf(),
    ensures
        s.bounded(),
{
    lemma_normsq_nonneg(s.alpha);
    lemma_normsq_nonneg(s.beta);
    lemma_amp_bounded(s.alpha);
    lemma_amp_bounded(s.beta);
}

/// The probabilities of a well-formed state sum to one, exactly: the two
/// `|0>`/`|1>` numerators sum to the common denominator, and the sqrt(2)
/// parts cancel. This holds for every valid construction, with no tolerance.
pub proof fn lemma_probs_sum_to_one(s: StateModel)
    requires
        s.wf(),
    ensures
        s.pz_int() + s.po_int() == s.denom_sq,
        s.pz_rt2() + s.po_rt2() == 0,
        0 <= s.pz_int() <= s.denom_sq,
        0 <= s.po_int() <= s.denom_sq,
{
    lemma_normsq_nonneg(s.alpha);
    lemma_normsq_nonneg(s.beta);
}

impl SingleQubit {
    /// The state `|0>`: `alpha = 1`, `beta = 0`.
    pub fn new() -> (r: Self)
        ensures
            r@ == ket_zero(),
            r@.wf(),
    {
        SingleQubit {
            alpha: Amplitude::from_gauss(1, 0),
            beta: Amplitude::from_gauss(0, 0),
            denom_sq: 1,
        }
    }

    /// The state `|1>`: `alpha = 0`, `beta = 1`.
    pub fn new_one() -> (r: Self)
        ensures
            r@ == ket_one(),
            r@.wf(),
    {
        SingleQubit {
            alpha: Amplitude::from_gauss(0, 0),
            beta: Amplitude::from_gauss(1, 0),
            denom_sq: 1,
        }
    }

    /// A state from two caller-supplied Gaussian-integer amplitudes,
    /// normalized before it is returned. If both inputs are zero the raw
    /// zero state is returned unchanged (the degenerate guard of
    /// [`SingleQubit::normalize`]); it is not a valid physical state.
    pub fn from_amplitudes(a_re: i64, a_im: i64, b_re: i64, b_im: i64) -> (r: Self)
        requires
            -0x1000_0000 <= a_re <= 0x1000_0000,
            -0x1000_0000 <= a_im <= 0x1000_0000,
            -0x1000_0000 <= b_re <= 0x1000_0000,
            -0x1000_0000 <= b_im <= 0x1000_0000,
        ensures
            r@.alpha == gauss(a_re as int, a_im as int),
            r@.beta == gauss(b_re as int, b_im as int),
            r@.denom_sq == if r@.norm_int() == 0 { 1int } else { r@.norm_int() },
            r@.norm_int() >= 1 ==> r@.wf(),
    {
        let mut qubit = SingleQubit {
            alpha: Amplitude::from_gauss(a_re, a_im),
            beta: Amplitude::from_gauss(b_re, b_im),
            denom_sq: 1,
        };
        qubit.normalize();
        proof {
            lemma_normsq_nonneg(qubit@.alpha);
            lemma_normsq_nonneg(qubit@.beta);
        }
        qubit
    }

    /// Rescale the state to unit norm, exactly: the common denominator is
    /// set to the squared norm of the numerators, which divides the state by
    /// `sqrt(|alpha|^2 + |beta|^2)`. When that norm is zero (all coordinates
    /// zero) the state is left untouched, the exact analogue of the
    /// near-zero-norm guard of a floating-point implementation.
    ///
    /// The squared norm of the numerators must have no sqrt(2) part, else no
    /// exact common denominator of the form `sqrt(n)` exists; amplitudes
    /// built from Gaussian integers always satisfy this.
    pub fn normalize(&mut self)
        requires
            in_range(old(self)@.alpha, 0x1000_0000),
            in_range(old(self)@.beta, 0x1000_0000),
            old(self)@.norm_rt2() == 0,
        ensures
            final(self)@.alpha == old(self)@.alpha,
            final(self)@.beta == old(self)@.beta,
            old(self)@.norm_int() == 0 ==> final(self)@.denom_sq == old(self)@.denom_sq,
            old(self)@.norm_int() >= 1 ==> final(self)@.denom_sq == old(self)@.norm_int()
                && final(self)@.wf(),
    {
        proof {
            lemma_mul_le(self@.alpha.re_int, 0x1000_0000, self@.alpha.re_int, 0x1000_0000);
            lemma_mul_le(self@.alpha.re_rt2, 0x1000_0000, self@.alpha.re_rt2, 0x1000_0000);
            lemma_mul_le(self@.alpha.im_int, 0x1000_0000, self@.alpha.im_int, 0x1000_0000);
            lemma_mul_le(self@.alpha.im_rt2, 0x1000_0000, self@.alpha.im_rt2, 0x1000_0000);
            lemma_mul_le(self@.beta.re_int, 0x1000_0000, self@.beta.re_int, 0x1000_0000);
            lemma_mul_le(self@.beta.re_rt2, 0x1000_0000, self@.beta.re_rt2, 0x1000_0000);
            lemma_mul_le(self@.beta.im_int, 0x1000_0000, self@.beta.im_int, 0x1000_0000);
            lemma_mul_le(self@.beta.im_rt2, 0x1000_0000, self@.beta.im_rt2, 0x1000_0000);
            lemma_normsq_nonneg(self@.alpha);
            lemma_normsq_nonneg(self@.beta);
        }
        let norm_sq: i64 = self.alpha.re_int * self.alpha.re_int
            + 2 * (self.alpha.re_rt2 * self.alpha.re_rt2)
            + self.alpha.im_int * self.alpha.im_int
            + 2 * (self.alpha.im_rt2 * self.alpha.im_rt2)
            + self.beta.re_int * self.beta.re_int
            + 2 * (self.beta.re_rt2 * self.beta.re_rt2)
            + self.beta.im_int * self.beta.im_int
            + 2 * (self.beta.im_rt2 * self.beta.im_rt2);
        if norm_sq > 0 {
            self.denom_sq = norm_sq;
        }
    }

    /// The probability of measuring `|0>`: exactly `|alpha|^2`, as the
    /// fraction `(num_int + num_rt2*sqrt(2)) / denom`.
    pub fn prob_zero(&self) -> (p: Prob)
        requires
            self@.bounded(),
        ensures
            p.num_int == self@.pz_int(),
            p.num_rt2 == self@.pz_rt2(),
            p.denom == self@.denom_sq,
            self@.wf() ==> 0 <= p.num_int <= p.denom && p.num_int + self@.po_int() == p.denom,
    {
        proof {
            lemma_mul_le(self@.alpha.re_int, 0x4000_0000, self@.alpha.re_int, 0x4000_0000);
            lemma_mul_le(self@.alpha.re_rt2, 0x4000_0000, self@.alpha.re_rt2, 0x4000_0000);
            lemma_mul_le(self@.alpha.im_int, 0x4000_0000, self@.alpha.im_int, 0x4000_0000);
            lemma_mul_le(self@.alpha.im_rt2, 0x4000_0000, self@.alpha.im_rt2, 0x4000_0000);
            lemma_mul_le(self@.alpha.re_int, 0x4000_0000, self@.alpha.re_rt2, 0x4000_0000);
            lemma_mul_le(self@.alpha.im_int, 0x4000_0000, self@.alpha.im_rt2, 0x4000_0000);
            if self@.wf() {
                lemma_probs_sum_to_one(self@);
            }
        }
        Prob {
            num_int: self.alpha.re_int * self.alpha.re_int
                + 2 * (self.alpha.re_rt2 * self.alpha.re_rt2)
                + self.alpha.im_int * self.alpha.im_int
                + 2 * (self.alpha.im_rt2 * self.alpha.im_rt2),
            num_rt2: 2 * (self.alpha.re_int * self.alpha.re_rt2
                + self.alpha.im_int * self.alpha.im_rt2),
            denom: self.denom_sq,
        }
    }

    /// The probability of measuring `|1>`: exactly `|beta|^2`.
    pub fn prob_one(&self) -> (p: Prob)
        requires
            self@.bounded(),
        ensures
            p.num_int == self@.po_int(),
            p.num_rt2 == self@.po_rt2(),
            p.denom == self@.denom_sq,
            self@.wf() ==> 0 <= p.num_int <= p.denom && p.num_int + self@.pz_int() == p.denom,
    {
        proof {
            lemma_mul_le(self@.beta.re_int, 0x4000_0000, self@.beta.re_int, 0x4000_0000);
            lemma_mul_le(self@.beta.re_rt2, 0x4000_0000, self@.beta.re_rt2, 0x4000_0000);
            lemma_mul_le(self@.beta.im_int, 0x4000_0000, self@.beta.im_int, 0x4000_0000);
            lemma_mul_le(self@.beta.im_rt2, 0x4000_0000, self@.beta.im_rt2, 0x4000_0000);
            lemma_mul_le(self@.beta.re_int, 0x4000_0000, self@.beta.re_rt2, 0x4000_0000);
            lemma_mul_le(self@.beta.im_int, 0x4000_0000, self@.beta.im_rt2, 0x4000_0000);
            if self@.wf() {
                lemma_probs_sum_to_one(self@);
            }
        }
        Prob {
            num_int: self.beta.re_int * self.beta.re_int
                + 2 * (self.beta.re_rt2 * self.beta.re_rt2)
                + self.beta.im_int * self.beta.im_int
                + 2 * (self.beta.im_rt2 * self.beta.im_rt2),
            num_rt2: 2 * (self.beta.re_int * self.beta.re_rt2
                + self.beta.im_int * self.beta.im_rt2),
            denom: self.denom_sq,
        }
    }

    /// Apply a 2x2 matrix to the state: both new amplitudes are computed
    /// from the old pair before either field is overwritten. This is the one
    /// place where amplitude arithmetic happens; every gate goes through it.
    ///
    /// The matrix is not checked for unitarity: a caller that supplies a
    /// non-unitary matrix silently loses the normalization invariant, which
    /// is why each gate of [`crate::gates`] carries its own proof that the
    /// invariant is preserved.
    pub fn apply_gate(&mut self, matrix: Gate)
        requires
            old(self)@.bounded(),
            in_range(matrix@.m00, 8),
            in_range(matrix@.m01, 8),
            in_range(matrix@.m10, 8),
            in_range(matrix@.m11, 8),
            1 <= matrix@.denom_sq <= 4,
        ensures
            final(self)@ == apply_model(matrix@, old(self)@),
    {
        proof {
            lemma_mul_le(self@.denom_sq, 0x1000_0000_0000_0000, matrix@.denom_sq, 4);
        }
        let new_alpha = amp_add(amp_mul(matrix.m00, self.alpha), amp_mul(matrix.m01, self.beta));
        let new_beta = amp_add(amp_mul(matrix.m10, self.alpha), amp_mul(matrix.m11, self.beta));
        self.alpha = new_alpha;
        self.beta = new_beta;
        self.denom_sq = self.denom_sq * matrix.denom_sq;
    }
}

impl Default for SingleQubit {
    /// The default state is `|0>`.
    fn default() -> (r: Self)
        ensures
            r@ == ket_zero(),
            r@.wf(),
    {
        SingleQubit::new()
    }
}

} // verus!

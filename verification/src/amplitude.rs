//! Exact complex amplitudes over the ring Z[sqrt(2), i].

use vstd::prelude::*;

verus! {

/// One complex amplitude, exactly: the number
/// `(re_int + re_rt2*sqrt(2)) + (im_int + im_rt2*sqrt(2)) * i`.
///
/// Every matrix entry of the standard single-qubit gate set (Pauli X/Y/Z,
/// Hadamard, S, T, and rotations by quarter turns) lies in Z[sqrt(2), i], so
/// a state built from integer amplitudes stays exactly representable under
/// every gate; no rounding ever occurs.
#[derive(Clone, Copy, Debug, PartialEq, Eq, Structural)]
pub struct Amplitude {
    pub re_int: i64,
    pub re_rt2: i64,
    pub im_int: i64,
    pub im_rt2: i64,
}

/// The mathematical value of an `Amplitude`: the same four coordinates as
/// unbounded integers.
#[verifier::ext_equal]
pub ghost struct AmpModel {
    pub re_int: int,
    pub re_rt2: int,
    pub im_int: int,
    pub im_rt2: int,
}

impl View for Amplitude {
    type V = AmpModel;

    open spec fn view(&self) -> AmpModel {
        AmpModel {
            re_int: self.re_int as int,
            re_rt2: self.re_rt2 as int,
            im_int: self.im_int as int,
            im_rt2: self.im_rt2 as int,
        }
    }
}

/// The Gaussian integer `re + im*i` as an amplitude (no sqrt(2) parts).
pub open spec fn gauss(re: int, im: int) -> AmpModel {
    AmpModel { re_int: re, re_rt2: 0, im_int: im, im_rt2: 0 }
}

/// The amplitude `sqrt(2)`.
pub open spec fn rt2() -> AmpModel {
    AmpModel { re_int: 0, re_rt2: 1, im_int: 0, im_rt2: 0 }
}

/// Complex addition, coordinate-wise.
pub open spec fn c_add(x: AmpModel, y: AmpModel) -> AmpModel {
    AmpModel {
        re_int: x.re_int + y.re_int,
        re_rt2: x.re_rt2 + y.re_rt2,
        im_int: x.im_int + y.im_int,
        im_rt2: x.im_rt2 + y.im_rt2,
    }
}

/// Complex subtraction, coordinate-wise.
pub open spec fn c_sub(x: AmpModel, y: AmpModel) -> AmpModel {
    AmpModel {
        re_int: x.re_int - y.re_int,
        re_rt2: x.re_rt2 - y.re_rt2,
        im_int: x.im_int - y.im_int,
        im_rt2: x.im_rt2 - y.im_rt2,
    }
}

/// Complex multiplication. With `u = a + b*i` and `v = c + d*i` (where
/// `a, b, c, d` are elements `x + y*sqrt(2)`), the product is
/// `(a*c - b*d) + (a*d + b*c)*i`, and the element products use
/// `(x1 + y1*sqrt(2)) * (x2 + y2*sqrt(2)) == x1*x2 + 2*y1*y2 + (x1*y2 + y1*x2)*sqrt(2)`.
pub open spec fn c_mul(u: AmpModel, v: AmpModel) -> AmpModel {
    AmpModel {
        re_int: u.re_int * v.re_int + 2 * (u.re_rt2 * v.re_rt2)
            - u.im_int * v.im_int - 2 * (u.im_rt2 * v.im_rt2),
        re_rt2: u.re_int * v.re_rt2 + u.re_rt2 * v.re_int
            - u.im_int * v.im_rt2 - u.im_rt2 * v.im_int,
        im_int: u.re_int * v.im_int + 2 * (u.re_rt2 * v.im_rt2)
            + u.im_int * v.re_int + 2 * (u.im_rt2 * v.re_rt2),
        im_rt2: u.re_int * v.im_rt2 + u.re_rt2 * v.im_int
            + u.im_int * v.re_rt2 + u.im_rt2 * v.re_int,
    }
}

/// The integer part of the squared magnitude `|v|^2`, which is the element
/// `normsq_int(v) + normsq_rt2(v)*sqrt(2)` of Z[sqrt(2)].
pub open spec fn normsq_int(v: AmpModel) -> int {
    v.re_int * v.re_int + 2 * (v.re_rt2 * v.re_rt2)
        + v.im_int * v.im_int + 2 * (v.im_rt2 * v.im_rt2)
}

/// The sqrt(2) part of the squared magnitude `|v|^2`.
pub open spec fn normsq_rt2(v: AmpModel) -> int {
    2 * (v.re_int * v.re_rt2 + v.im_int * v.im_rt2)
}

/// All four coordinates lie in `[-bound, bound]`.
pub open spec fn in_range(v: AmpModel, bound: int) -> bool {
    &&& -bound <= v.re_int <= bound
    &&& -bound <= v.re_rt2 <= bound
    &&& -bound <= v.im_int <= bound
    &&& -bound <= v.im_rt2 <= bound
}

impl Amplitude {
    /// The amplitude with the four given coordinates.
    pub fn new(re_int: i64, re_rt2: i64, im_int: i64, im_rt2: i64) -> (r: Self)
        ensures
            r@ == (AmpModel {
                re_int: re_int as int,
                re_rt2: re_rt2 as int,
                im_int: im_int as int,
                im_rt2: im_rt2 as int,
            }),
    {
        Amplitude { re_int, re_rt2, im_int, im_rt2 }
    }

    /// The Gaussian integer `re + im*i`.
    pub fn from_gauss(re: i64, im: i64) -> (r: Self)
        ensures
            r@ == gauss(re as int, im as int),
    {
        Amplitude { re_int: re, re_rt2: 0, im_int: im, im_rt2: 0 }
    }
}

pub proof fn lemma_mul_le(x: int, bx: int, y: int, by: int)
    by (nonlinear_arith)
    requires
        -bx <= x <= bx,
        -by <= y <= by,
        0 <= bx,
        0 <= by,
    ensures
        -(bx * by) <= x * y <= bx * by,
{
}

pub proof fn lemma_scale_cross(c: int, x: int, y: int)
    by (nonlinear_arith)
    ensures
        (c * x) * y == x * (c * y),
{
}

pub proof fn lemma_sq_nonneg(x: int)
    by (nonlinear_arith)
    ensures
        0 <= x * x,
{
}

pub proof fn lemma_sq_bound(x: int)
    by (nonlinear_arith)
    requires
        x * x <= 0x1000_0000_0000_0000,
    ensures
        -0x4000_0000 <= x <= 0x4000_0000,
{
}

/// Both parts of `|v|^2` vanish only together with every coordinate; the
/// integer part is never negative.
pub proof fn lemma_normsq_nonneg(v: AmpModel)
    ensures
        0 <= normsq_int(v),
        normsq_int(v) == 0 ==> v == gauss(0, 0),
{
    lemma_sq_nonneg(v.re_int);
    lemma_sq_nonneg(v.re_rt2);
    lemma_sq_nonneg(v.im_int);
    lemma_sq_nonneg(v.im_rt2);
    if normsq_int(v) == 0 {
        assert(v.re_int * v.re_int == 0);
        assert(v.re_int == 0) by (nonlinear_arith)
            requires
                v.re_int * v.re_int == 0,
        ;
        assert(v.re_rt2 == 0) by (nonlinear_arith)
            requires
                v.re_rt2 * v.re_rt2 == 0,
        ;
        assert(v.im_int == 0) by (nonlinear_arith)
            requires
                v.im_int * v.im_int == 0,
        ;
        assert(v.im_rt2 == 0) by (nonlinear_arith)
            requires
                v.im_rt2 * v.im_rt2 == 0,
        ;
    }
}

/// A squared magnitude bounded by 2^60 bounds every coordinate by 2^30.
pub proof fn lemma_amp_bounded(v: AmpModel)
    requires
        normsq_int(v) <= 0x1000_0000_0000_0000,
    ensures
        in_range(v, 0x4000_0000),
{
    lemma_sq_nonneg(v.re_int);
    lemma_sq_nonneg(v.re_rt2);
    lemma_sq_nonneg(v.im_int);
    lemma_sq_nonneg(v.im_rt2);
    lemma_sq_bound(v.re_int);
    lemma_sq_bound(v.re_rt2);
    lemma_sq_bound(v.im_int);
    lemma_sq_bound(v.im_rt2);
}

/// Multiplying by a real unit `e` with `e^2 == 1` preserves `|v|^2`.
pub proof fn lemma_normsq_real_unit(e: int, v: AmpModel)
    requires
        e * e == 1,
    ensures
        normsq_int(c_mul(gauss(e, 0), v)) == normsq_int(v),
        normsq_rt2(c_mul(gauss(e, 0), v)) == normsq_rt2(v),
{
    let v1: int = v.re_int;
    let v2: int = v.re_rt2;
    let v3: int = v.im_int;
    let v4: int = v.im_rt2;
    let w: AmpModel = c_mul(gauss(e, 0), v);
    assert(w.re_int == e * v1 && w.re_rt2 == e * v2 && w.im_int == e * v3 && w.im_rt2 == e * v4);
    assert((e * v1) * (e * v1) == v1 * v1) by (nonlinear_arith)
        requires
            e * e == 1,
    ;
    assert((e * v2) * (e * v2) == v2 * v2) by (nonlinear_arith)
        requires
            e * e == 1,
    ;
    assert((e * v3) * (e * v3) == v3 * v3) by (nonlinear_arith)
        requires
            e * e == 1,
    ;
    assert((e * v4) * (e * v4) == v4 * v4) by (nonlinear_arith)
        requires
            e * e == 1,
    ;
    assert((e * v1) * (e * v2) == v1 * v2) by (nonlinear_arith)
        requires
            e * e == 1,
    ;
    assert((e * v3) * (e * v4) == v3 * v4) by (nonlinear_arith)
        requires
            e * e == 1,
    ;
}

/// Multiplying by an imaginary unit `e*i` with `e^2 == 1` preserves `|v|^2`.
pub proof fn lemma_normsq_imag_unit(e: int, v: AmpModel)
    requires
        e * e == 1,
    ensures
        normsq_int(c_mul(gauss(0, e), v)) == normsq_int(v),
        normsq_rt2(c_mul(gauss(0, e), v)) == normsq_rt2(v),
{
    let v1: int = v.re_int;
    let v2: int = v.re_rt2;
    let v3: int = v.im_int;
    let v4: int = v.im_rt2;
    let w: AmpModel = c_mul(gauss(0, e), v);
    assert(w.re_int == -(e * v3) && w.re_rt2 == -(e * v4) && w.im_int == e * v1 && w.im_rt2 == e
        * v2);
    assert((e * v1) * (e * v1) == v1 * v1) by (nonlinear_arith)
        requires
            e * e == 1,
    ;
    assert((e * v2) * (e * v2) == v2 * v2) by (nonlinear_arith)
        requires
            e * e == 1,
    ;
    assert((-(e * v3)) * (-(e * v3)) == v3 * v3) by (nonlinear_arith)
        requires
            e * e == 1,
    ;
    assert((-(e * v4)) * (-(e * v4)) == v4 * v4) by (nonlinear_arith)
        requires
            e * e == 1,
    ;
    assert((e * v1) * (e * v2) == v1 * v2) by (nonlinear_arith)
        requires
            e * e == 1,
    ;
    assert((-(e * v3)) * (-(e * v4)) == v3 * v4) by (nonlinear_arith)
        requires
            e * e == 1,
    ;
}

/// Multiplying by a Gaussian unit of the form `e1 + e2*i` with
/// `e1^2 == e2^2 == 1` (so `|e1 + e2*i|^2 == 2`) doubles `|v|^2`.
pub proof fn lemma_normsq_gauss_unit(e1: int, e2: int, v: AmpModel)
    requires
        e1 * e1 == 1,
        e2 * e2 == 1,
    ensures
        normsq_int(c_mul(gauss(e1, e2), v)) == 2 * normsq_int(v),
        normsq_rt2(c_mul(gauss(e1, e2), v)) == 2 * normsq_rt2(v),
{
    let v1: int = v.re_int;
    let v2: int = v.re_rt2;
    let v3: int = v.im_int;
    let v4: int = v.im_rt2;
    let w: AmpModel = c_mul(gauss(e1, e2), v);
    assert(w.re_int == e1 * v1 - e2 * v3 && w.re_rt2 == e1 * v2 - e2 * v4 && w.im_int == e1 * v3
        + e2 * v1 && w.im_rt2 == e1 * v4 + e2 * v2);
    assert((e1 * v1 - e2 * v3) * (e1 * v1 - e2 * v3) + (e1 * v3 + e2 * v1) * (e1 * v3 + e2 * v1)
        == 2 * (v1 * v1) + 2 * (v3 * v3)) by (nonlinear_arith)
        requires
            e1 * e1 == 1,
            e2 * e2 == 1,
    ;
    assert((e1 * v2 - e2 * v4) * (e1 * v2 - e2 * v4) + (e1 * v4 + e2 * v2) * (e1 * v4 + e2 * v2)
        == 2 * (v2 * v2) + 2 * (v4 * v4)) by (nonlinear_arith)
        requires
            e1 * e1 == 1,
            e2 * e2 == 1,
    ;
    assert((e1 * v1 - e2 * v3) * (e1 * v2 - e2 * v4) + (e1 * v3 + e2 * v1) * (e1 * v4 + e2 * v2)
        == 2 * (v1 * v2) + 2 * (v3 * v4)) by (nonlinear_arith)
        requires
            e1 * e1 == 1,
            e2 * e2 == 1,
    ;
}

/// Multiplying by `sqrt(2)` doubles `|v|^2`.
pub proof fn lemma_normsq_mul_rt2(v: AmpModel)
    ensures
        normsq_int(c_mul(rt2(), v)) == 2 * normsq_int(v),
        normsq_rt2(c_mul(rt2(), v)) == 2 * normsq_rt2(v),
{
    let v1: int = v.re_int;
    let v2: int = v.re_rt2;
    let v3: int = v.im_int;
    let v4: int = v.im_rt2;
    let w: AmpModel = c_mul(rt2(), v);
    assert(w.re_int == 2 * v2 && w.re_rt2 == v1 && w.im_int == 2 * v4 && w.im_rt2 == v3);
    assert((2 * v2) * (2 * v2) == 4 * (v2 * v2)) by (nonlinear_arith);
    assert((2 * v4) * (2 * v4) == 4 * (v4 * v4)) by (nonlinear_arith);
    assert((2 * v2) * v1 == 2 * (v1 * v2)) by (nonlinear_arith);
    assert((2 * v4) * v3 == 2 * (v3 * v4)) by (nonlinear_arith);
}

/// Multiplying by `i` and then by `-i` (in either order) returns any
/// amplitude to itself.
pub proof fn lemma_mul_i_round_trip(v: AmpModel)
    ensures
        c_mul(gauss(0, -1), c_mul(gauss(0, 1), v)) =~= v,
        c_mul(gauss(0, 1), c_mul(gauss(0, -1), v)) =~= v,
{
}

/// `(a + b) + (a - b) == 2a` and `(a + b) - (a - b) == 2b`: what makes a
/// double Hadamard cancel.
pub proof fn lemma_add_sub_cancel(a: AmpModel, b: AmpModel)
    ensures
        c_add(c_add(a, b), c_sub(a, b)) =~= c_add(a, a),
        c_sub(c_add(a, b), c_sub(a, b)) =~= c_add(b, b),
{
}

/// The parallelogram law: `|a + b|^2 + |a - b|^2 == 2*|a|^2 + 2*|b|^2`,
/// exactly, in both parts. This is what makes the Hadamard gate unitary.
pub proof fn lemma_parallelogram(a: AmpModel, b: AmpModel)
    ensures
        normsq_int(c_add(a, b)) + normsq_int(c_sub(a, b)) == 2 * normsq_int(a) + 2 * normsq_int(b),
        normsq_rt2(c_add(a, b)) + normsq_rt2(c_sub(a, b)) == 2 * normsq_rt2(a) + 2 * normsq_rt2(b),
{
    let a1: int = a.re_int;
    let a2: int = a.re_rt2;
    let a3: int = a.im_int;
    let a4: int = a.im_rt2;
    let b1: int = b.re_int;
    let b2: int = b.re_rt2;
    let b3: int = b.im_int;
    let b4: int = b.im_rt2;
    assert((a1 + b1) * (a1 + b1) + (a1 - b1) * (a1 - b1) == 2 * (a1 * a1) + 2 * (b1 * b1))
        by (nonlinear_arith);
    assert((a2 + b2) * (a2 + b2) + (a2 - b2) * (a2 - b2) == 2 * (a2 * a2) + 2 * (b2 * b2))
        by (nonlinear_arith);
    assert((a3 + b3) * (a3 + b3) + (a3 - b3) * (a3 - b3) == 2 * (a3 * a3) + 2 * (b3 * b3))
        by (nonlinear_arith);
    assert((a4 + b4) * (a4 + b4) + (a4 - b4) * (a4 - b4) == 2 * (a4 * a4) + 2 * (b4 * b4))
        by (nonlinear_arith);
    assert((a1 + b1) * (a2 + b2) + (a1 - b1) * (a2 - b2) == 2 * (a1 * a2) + 2 * (b1 * b2))
        by (nonlinear_arith);
    assert((a3 + b3) * (a4 + b4) + (a3 - b3) * (a4 - b4) == 2 * (a3 * a4) + 2 * (b3 * b4))
        by (nonlinear_arith);
}

/// Exact sum of two amplitudes, with the coordinate bound needed by its
/// callers carried along.
pub(crate) fn amp_add(x: Amplitude, y: Amplitude) -> (r: Amplitude)
    requires
        in_range(x@, 0x10_0000_0000),
        in_range(y@, 0x10_0000_0000),
    ensures
        r@ == c_add(x@, y@),
        in_range(r@, 0x20_0000_0000),
{
    Amplitude {
        re_int: x.re_int + y.re_int,
        re_rt2: x.re_rt2 + y.re_rt2,
        im_int: x.im_int + y.im_int,
        im_rt2: x.im_rt2 + y.im_rt2,
    }
}

/// Exact product of a small gate entry `u` with a state amplitude `v`.
pub(crate) fn amp_mul(u: Amplitude, v: Amplitude) -> (r: Amplitude)
    requires
        in_range(u@, 8),
        in_range(v@, 0x4000_0000),
    ensures
        r@ == c_mul(u@, v@),
        in_range(r@, 0x10_0000_0000),
{
    proof {
        lemma_mul_le(u@.re_int, 8, v@.re_int, 0x4000_0000);
        lemma_mul_le(u@.re_int, 8, v@.re_rt2, 0x4000_0000);
        lemma_mul_le(u@.re_int, 8, v@.im_int, 0x4000_0000);
        lemma_mul_le(u@.re_int, 8, v@.im_rt2, 0x4000_0000);
        lemma_mul_le(u@.re_rt2, 8, v@.re_int, 0x4000_0000);
        lemma_mul_le(u@.re_rt2, 8, v@.re_rt2, 0x4000_0000);
        lemma_mul_le(u@.re_rt2, 8, v@.im_int, 0x4000_0000);
        lemma_mul_le(u@.re_rt2, 8, v@.im_rt2, 0x4000_0000);
        lemma_mul_le(u@.im_int, 8, v@.re_int, 0x4000_0000);
        lemma_mul_le(u@.im_int, 8, v@.re_rt2, 0x4000_0000);
        lemma_mul_le(u@.im_int, 8, v@.im_int, 0x4000_0000);
        lemma_mul_le(u@.im_int, 8, v@.im_rt2, 0x4000_0000);
        lemma_mul_le(u@.im_rt2, 8, v@.re_int, 0x4000_0000);
        lemma_mul_le(u@.im_rt2, 8, v@.re_rt2, 0x4000_0000);
        lemma_mul_le(u@.im_rt2, 8, v@.im_int, 0x4000_0000);
        lemma_mul_le(u@.im_rt2, 8, v@.im_rt2, 0x4000_0000);
    }
    Amplitude {
        re_int: u.re_int * v.re_int + 2 * (u.re_rt2 * v.re_rt2)
            - u.im_int * v.im_int - 2 * (u.im_rt2 * v.im_rt2),
        re_rt2: u.re_int * v.re_rt2 + u.re_rt2 * v.re_int
            - u.im_int * v.im_rt2 - u.im_rt2 * v.im_int,
        im_int: u.re_int * v.im_int + 2 * (u.re_rt2 * v.im_rt2)
            + u.im_int * v.re_int + 2 * (u.im_rt2 * v.re_rt2),
        im_rt2: u.re_int * v.im_rt2 + u.re_rt2 * v.im_int
            + u.im_int * v.re_rt2 + u.im_rt2 * v.re_int,
    }
}

} // verus!

//! An exact simulator for the state of a single qubit.
//!
//! A qubit state is a pair of complex amplitudes with unit norm. Instead of
//! floating point, amplitudes are kept as exact elements of the ring
//! Z[sqrt(2), i] over a common denominator, which contains every entry of the
//! standard single-qubit gate set. Gate application, normalization and the
//! measurement probabilities are therefore exact, and the normalization
//! invariant is a proved theorem rather than a numerical tolerance.

pub mod amplitude;
pub mod single_qubit;
pub mod gates;

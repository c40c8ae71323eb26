use vstd::prelude::*;

verus! {

/// Which of the two floating-point widths a scalar type selects for the
/// factor/solve backend.
#[derive(Debug, Clone, Copy, PartialEq, Eq, Structural)]
pub enum Precision {
    Single,
    Double,
}

/// The numeric scalar of the matrix engine.
///
/// The library is generic over the scalar and treats its arithmetic as
/// opaque: each operation is pinned to its own spec-level counterpart and
/// nothing more is assumed of it, so every contract downstream speaks of
/// symbolic sums and reciprocals. Implementations live with the user of the
/// library (machine floating point, which carries `factor` and `back_solve`
/// to LAPACK-style `getrf`/`getrs` routines); their bodies are not verified,
/// so a caller trusts each implementation to mean what these contracts say.
pub trait Scalar: Sized + Copy {
    /// The additive identity, abstractly.
    spec fn spec_zero() -> Self;

    /// The multiplicative identity, abstractly.
    spec fn spec_one() -> Self;

    /// The sum of two scalars, abstractly.
    spec fn spec_plus(self, other: Self) -> Self;

    /// The negation of a scalar, abstractly.
    spec fn spec_neg(self) -> Self;

    /// The reciprocal of a scalar, abstractly.
    spec fn spec_recip(self) -> Self;

    /// Which factor/solve routine pair the type dispatches to.
    fn precision() -> (r: Precision);

    fn zero() -> (r: Self)
        ensures
            r == Self::spec_zero(),
    ;

    fn one() -> (r: Self)
        ensures
            r == Self::spec_one(),
    ;

    fn plus(self, other: Self) -> (r: Self)
        ensures
            r == self.spec_plus(other),
    ;

    fn neg(self) -> (r: Self)
        ensures
            r == self.spec_neg(),
    ;

    fn recip(self) -> (r: Self)
        ensures
            r == self.spec_recip(),
    ;

    /// Factor the `stride` x `stride` matrix in place, LU with partial
    /// pivoting, and return the pivot vector and the routine's `info` code:
    /// 0 for success, -k when argument k was bad, k > 0 when the k-th pivot
    /// was zero. Nothing is assumed about the numeric content of the result.
    fn factor(stride: usize, matrix: &mut Vec<Self>) -> (r: (Vec<i32>, i32))
        requires
            old(matrix).len() == stride * stride,
        ensures
            final(matrix).len() == stride * stride,
            r.0.len() == stride,
    ;

    /// Solve the factored system against `rhs` in place, one right-hand
    /// side, no transpose, and return the routine's `info` code: 0 for
    /// success, -k when argument k was bad. Nothing is assumed about the
    /// numeric content of the result.
    fn back_solve(stride: usize, matrix: &Vec<Self>, piv: &Vec<i32>, rhs: &mut Vec<Self>) -> (info:
        i32)
        requires
            matrix.len() == stride * stride,
            piv.len() == stride,
            old(rhs).len() == stride,
        ensures
            final(rhs).len() == stride,
    ;
}

} // verus!

//! The abstract scalar the whole library is verified over.

use vstd::prelude::*;

verus! {

/// The one numeric abstraction of the library.
///
/// Every arithmetic and transcendental operation the expression machine
/// performs goes through this trait, so the validator, the compiler and both
/// interpreters are verified once for every model of it.  Each exec method is
/// pinned to its own spec counterpart, which makes every operation a fixed
/// function of its operands: two evaluations of the same program on the same
/// input are provably equal, whatever the model computes.
///
/// The intended model is an IEEE single-precision float; the application
/// shell and the test suite provide it, built on the libm routines a
/// bare-metal build links.  Floating point cannot appear in verified code,
/// so the model lives outside the library and nothing here assumes any
/// algebraic law of it: laws that need one (for instance that adding a zero
/// changes nothing) are stated as explicit hypotheses of the lemmas that use
/// them.
pub trait Scalar: Sized + Copy {
    /// The value the model's addition returns.
    open spec fn spec_add(self, rhs: Self) -> Self {
        arbitrary()
    }

    fn add(self, rhs: Self) -> (r: Self)
        ensures
            r == self.spec_add(rhs),
    ;

    /// The value the model's subtraction returns.
    open spec fn spec_sub(self, rhs: Self) -> Self {
        arbitrary()
    }

    fn sub(self, rhs: Self) -> (r: Self)
        ensures
            r == self.spec_sub(rhs),
    ;

    /// The value the model's multiplication returns.
    open spec fn spec_mul(self, rhs: Self) -> Self {
        arbitrary()
    }

    fn mul(self, rhs: Self) -> (r: Self)
        ensures
            r == self.spec_mul(rhs),
    ;

    /// The value the model's division returns (a division by zero is the
    /// model's own business: IEEE models return an infinity or a NaN).
    open spec fn spec_div(self, rhs: Self) -> Self {
        arbitrary()
    }

    fn div(self, rhs: Self) -> (r: Self)
        ensures
            r == self.spec_div(rhs),
    ;

    /// The value the model's negation returns.
    open spec fn spec_neg(self) -> Self {
        arbitrary()
    }

    fn neg(self) -> (r: Self)
        ensures
            r == self.spec_neg(),
    ;

    /// The model's sine.
    open spec fn spec_sin(self) -> Self {
        arbitrary()
    }

    fn sin(self) -> (r: Self)
        ensures
            r == self.spec_sin(),
    ;

    /// The model's cosine.
    open spec fn spec_cos(self) -> Self {
        arbitrary()
    }

    fn cos(self) -> (r: Self)
        ensures
            r == self.spec_cos(),
    ;

    /// The model's exponential.
    open spec fn spec_exp(self) -> Self {
        arbitrary()
    }

    fn exp(self) -> (r: Self)
        ensures
            r == self.spec_exp(),
    ;

    /// The model's natural logarithm.
    open spec fn spec_ln(self) -> Self {
        arbitrary()
    }

    fn ln(self) -> (r: Self)
        ensures
            r == self.spec_ln(),
    ;

    /// The model's square root.
    open spec fn spec_sqrt(self) -> Self {
        arbitrary()
    }

    fn sqrt(self) -> (r: Self)
        ensures
            r == self.spec_sqrt(),
    ;

    /// The model's two-argument arctangent; `y.atan2(x)` is the angle of the
    /// point `(x, y)`.
    open spec fn spec_atan2(self, x: Self) -> Self {
        arbitrary()
    }

    fn atan2(self, x: Self) -> (r: Self)
        ensures
            r == self.spec_atan2(x),
    ;

    /// The model's absolute value.
    open spec fn spec_abs(self) -> Self {
        arbitrary()
    }

    fn abs(self) -> (r: Self)
        ensures
            r == self.spec_abs(),
    ;

    /// Whether the model considers the value a zero (an IEEE model answers
    /// true for both signed zeros).
    open spec fn spec_is_zero(self) -> bool {
        arbitrary()
    }

    fn is_zero(self) -> (r: bool)
        ensures
            r == self.spec_is_zero(),
    ;

    /// Whether the value is strictly negative.
    open spec fn spec_is_neg(self) -> bool {
        arbitrary()
    }

    fn is_neg(self) -> (r: bool)
        ensures
            r == self.spec_is_neg(),
    ;

    /// The model's zero.
    open spec fn spec_zero() -> Self {
        arbitrary()
    }

    fn zero() -> (r: Self)
        ensures
            r == Self::spec_zero(),
    ;

    /// The model's one.
    open spec fn spec_one() -> Self {
        arbitrary()
    }

    fn one() -> (r: Self)
        ensures
            r == Self::spec_one(),
    ;

    /// The model's two.
    open spec fn spec_two() -> Self {
        arbitrary()
    }

    fn two() -> (r: Self)
        ensures
            r == Self::spec_two(),
    ;

    /// The model's one half.
    open spec fn spec_half() -> Self {
        arbitrary()
    }

    fn half() -> (r: Self)
        ensures
            r == Self::spec_half(),
    ;

    /// The model's value of the constant pi.
    open spec fn spec_pi() -> Self {
        arbitrary()
    }

    fn pi() -> (r: Self)
        ensures
            r == Self::spec_pi(),
    ;

    /// The model's value of Euler's constant.
    open spec fn spec_e() -> Self {
        arbitrary()
    }

    fn e() -> (r: Self)
        ensures
            r == Self::spec_e(),
    ;

    /// The digits the model prints for a value, used by the textual
    /// rendering of a program.
    open spec fn spec_text(self) -> Seq<char> {
        arbitrary()
    }

    fn text(self) -> (r: String)
        ensures
            r@ == self.spec_text(),
    ;
}

} // verus!

//! Complex arithmetic and the transcendental functions, with every
//! branch-cut choice written out in the specification.

use vstd::prelude::*;

use crate::scalar::Scalar;

verus! {

/// A complex value over the scalar model `S`: the pair of its real and
/// imaginary components.
#[derive(Clone, Copy, Debug, PartialEq)]
pub struct Complex<S> {
    pub real: S,
    pub imag: S,
}

// ---------------------------------------------------------------------------
// The mathematical model of every operation, written exactly as the
// executable code computes it.  Each complex operation is a fixed
// composition of scalar operations; the branch choices (which quadrant the
// argument lands in, the sign of the logarithm's imaginary part, which
// square root a power takes) are all consequences of these compositions.
// ---------------------------------------------------------------------------

pub open spec fn spec_from_real<S: Scalar>(x: S) -> Complex<S> {
    Complex { real: x, imag: S::spec_zero() }
}

pub open spec fn spec_from_imag<S: Scalar>(x: S) -> Complex<S> {
    Complex { real: S::spec_zero(), imag: x }
}

/// The imaginary unit.
pub open spec fn spec_i<S: Scalar>() -> Complex<S> {
    Complex { real: S::spec_zero(), imag: S::spec_one() }
}

pub open spec fn spec_cneg<S: Scalar>(a: Complex<S>) -> Complex<S> {
    Complex { real: a.real.spec_neg(), imag: a.imag.spec_neg() }
}

pub open spec fn spec_conj<S: Scalar>(a: Complex<S>) -> Complex<S> {
    Complex { real: a.real, imag: a.imag.spec_neg() }
}

pub open spec fn spec_cadd<S: Scalar>(a: Complex<S>, b: Complex<S>) -> Complex<S> {
    Complex { real: a.real.spec_add(b.real), imag: a.imag.spec_add(b.imag) }
}

pub open spec fn spec_csub<S: Scalar>(a: Complex<S>, b: Complex<S>) -> Complex<S> {
    Complex { real: a.real.spec_sub(b.real), imag: a.imag.spec_sub(b.imag) }
}

pub open spec fn spec_cmul<S: Scalar>(a: Complex<S>, b: Complex<S>) -> Complex<S> {
    Complex {
        real: a.real.spec_mul(b.real).spec_sub(a.imag.spec_mul(b.imag)),
        imag: a.real.spec_mul(b.imag).spec_add(a.imag.spec_mul(b.real)),
    }
}

pub open spec fn spec_sq_mod<S: Scalar>(a: Complex<S>) -> S {
    a.real.spec_mul(a.real).spec_add(a.imag.spec_mul(a.imag))
}

/// Division multiplies by the conjugate scaled with the squared modulus of
/// the divisor; a zero divisor is not special-cased, the scalar model's own
/// division-by-zero results flow through.
pub open spec fn spec_cdiv<S: Scalar>(a: Complex<S>, b: Complex<S>) -> Complex<S> {
    spec_cmul(
        a,
        Complex {
            real: b.real.spec_div(spec_sq_mod(b)),
            imag: b.imag.spec_neg().spec_div(spec_sq_mod(b)),
        },
    )
}

// The four operations against a purely real right-hand side, as the
// optimized interpreter computes them with single-component arithmetic.

pub open spec fn spec_cadd_real<S: Scalar>(a: Complex<S>, r: S) -> Complex<S> {
    Complex { real: a.real.spec_add(r), imag: a.imag }
}

pub open spec fn spec_csub_real<S: Scalar>(a: Complex<S>, r: S) -> Complex<S> {
    Complex { real: a.real.spec_sub(r), imag: a.imag }
}

pub open spec fn spec_cmul_real<S: Scalar>(a: Complex<S>, r: S) -> Complex<S> {
    Complex { real: a.real.spec_mul(r), imag: a.imag.spec_mul(r) }
}

pub open spec fn spec_cdiv_real<S: Scalar>(a: Complex<S>, r: S) -> Complex<S> {
    Complex { real: a.real.spec_div(r), imag: a.imag.spec_div(r) }
}

pub open spec fn spec_modulus<S: Scalar>(a: Complex<S>) -> S {
    spec_sq_mod(a).spec_sqrt()
}

/// The argument convention of the whole library: the two-argument
/// arctangent of (imag, real), the principal value in (-pi, pi].
pub open spec fn spec_argument<S: Scalar>(a: Complex<S>) -> S {
    a.imag.spec_atan2(a.real)
}

pub open spec fn spec_is_real<S: Scalar>(a: Complex<S>) -> bool {
    a.imag.spec_is_zero()
}

/// exp(a+bi) = (cos b · e^a, sin b · e^a).
pub open spec fn spec_cexp<S: Scalar>(z: Complex<S>) -> Complex<S> {
    Complex {
        real: z.imag.spec_cos().spec_mul(z.real.spec_exp()),
        imag: z.imag.spec_sin().spec_mul(z.real.spec_exp()),
    }
}

/// The principal branch: log z = ln |z| + i·arg z.
pub open spec fn spec_clog<S: Scalar>(z: Complex<S>) -> Complex<S> {
    Complex { real: spec_modulus(z).spec_ln(), imag: spec_argument(z) }
}

/// The logarithm of a bare scalar: ln of its absolute value, with imaginary
/// part pi for a negative input and zero otherwise — a real-axis branch
/// choice used nowhere else in the library.
pub open spec fn spec_log_real<S: Scalar>(x: S) -> Complex<S> {
    Complex {
        real: x.spec_abs().spec_ln(),
        imag: if x.spec_is_neg() { S::spec_pi() } else { S::spec_zero() },
    }
}

/// Powers with a complex exponent go through the principal logarithm:
/// z^e = exp(log z · e).
pub open spec fn spec_cpow<S: Scalar>(z: Complex<S>, e: Complex<S>) -> Complex<S> {
    spec_cexp(spec_cmul(spec_clog(z), e))
}

/// Powers with a purely real exponent scale the logarithm component-wise.
pub open spec fn spec_cpow_real<S: Scalar>(z: Complex<S>, r: S) -> Complex<S> {
    spec_cexp(spec_cmul_real(spec_clog(z), r))
}

/// sin(a+bi) = (sin a · (e^{-b}+e^{b}) / 2, -cos a · (e^{-b}-e^{b}) / 2).
pub open spec fn spec_csin<S: Scalar>(z: Complex<S>) -> Complex<S> {
    Complex {
        real: z.real.spec_sin()
            .spec_mul(z.imag.spec_neg().spec_exp().spec_add(z.imag.spec_exp()))
            .spec_div(S::spec_two()),
        imag: z.real.spec_cos().spec_neg()
            .spec_mul(z.imag.spec_neg().spec_exp().spec_sub(z.imag.spec_exp()))
            .spec_div(S::spec_two()),
    }
}

/// cos(a+bi) = (cos a · (e^{-b}+e^{b}) / 2, sin a · (e^{-b}-e^{b}) / 2).
pub open spec fn spec_ccos<S: Scalar>(z: Complex<S>) -> Complex<S> {
    Complex {
        real: z.real.spec_cos()
            .spec_mul(z.imag.spec_neg().spec_exp().spec_add(z.imag.spec_exp()))
            .spec_div(S::spec_two()),
        imag: z.real.spec_sin()
            .spec_mul(z.imag.spec_neg().spec_exp().spec_sub(z.imag.spec_exp()))
            .spec_div(S::spec_two()),
    }
}

/// tan z = -i (e^{iz} - e^{-iz}) / (e^{iz} + e^{-iz}), the exponential form.
pub open spec fn spec_ctan<S: Scalar>(z: Complex<S>) -> Complex<S> {
    spec_cdiv(
        spec_cmul(
            spec_cneg(spec_i()),
            spec_csub(spec_cexp(spec_cmul(spec_i(), z)), spec_cexp(spec_cmul(spec_cneg(spec_i()), z))),
        ),
        spec_cadd(spec_cexp(spec_cmul(spec_i(), z)), spec_cexp(spec_cmul(spec_cneg(spec_i()), z))),
    )
}

/// arcsin z = -i log((1 - z^2)^{1/2} + i z).
pub open spec fn spec_carcsin<S: Scalar>(z: Complex<S>) -> Complex<S> {
    spec_cmul(
        spec_cneg(spec_i()),
        spec_clog(
            spec_cadd(
                spec_cpow_real(
                    spec_csub(spec_from_real(S::spec_one()), spec_cpow_real(z, S::spec_two())),
                    S::spec_half(),
                ),
                spec_cmul(spec_i(), z),
            ),
        ),
    )
}

/// arccos z = -i log(i (1 - z^2)^{1/2}).
///
/// The formula deliberately omits the `z +` term of the textbook identity:
/// it is the branch choice every picture is drawn with, pinned by a
/// regression test, and changing it would silently change the output.
pub open spec fn spec_carccos<S: Scalar>(z: Complex<S>) -> Complex<S> {
    spec_cmul(
        spec_cneg(spec_i()),
        spec_clog(
            spec_cmul(
                spec_i(),
                spec_cpow_real(
                    spec_csub(spec_from_real(S::spec_one()), spec_cpow_real(z, S::spec_two())),
                    S::spec_half(),
                ),
            ),
        ),
    )
}

/// arctan z = (-i / 2) log((1 + i z) / (1 - i z)).
pub open spec fn spec_carctan<S: Scalar>(z: Complex<S>) -> Complex<S> {
    spec_cmul(
        spec_cdiv_real(spec_cneg(spec_i()), S::spec_two()),
        spec_clog(
            spec_cdiv(
                spec_cadd(spec_from_real(S::spec_one()), spec_cmul(spec_i(), z)),
                spec_csub(spec_from_real(S::spec_one()), spec_cmul(spec_i(), z)),
            ),
        ),
    )
}

// ---------------------------------------------------------------------------
// Executable arithmetic, each operation pinned to its model above.
// ---------------------------------------------------------------------------

impl<S: Scalar> Complex<S> {
    pub fn from_real(x: S) -> (r: Complex<S>)
        ensures
            r == spec_from_real(x),
    {
        Complex { real: x, imag: S::zero() }
    }

    pub fn from_imag(x: S) -> (r: Complex<S>)
        ensures
            r == spec_from_imag(x),
    {
        Complex { real: S::zero(), imag: x }
    }

    /// The imaginary unit.
    pub fn i() -> (r: Complex<S>)
        ensures
            r == spec_i::<S>(),
    {
        Complex { real: S::zero(), imag: S::one() }
    }

    pub fn squared_modulus(&self) -> (r: S)
        ensures
            r == spec_sq_mod(*self),
    {
        self.real.mul(self.real).add(self.imag.mul(self.imag))
    }

    pub fn modulus(&self) -> (r: S)
        ensures
            r == spec_modulus(*self),
    {
        self.squared_modulus().sqrt()
    }

    pub fn argument(&self) -> (r: S)
        ensures
            r == spec_argument(*self),
    {
        self.imag.atan2(self.real)
    }

    pub fn polar(&self) -> (r: (S, S))
        ensures
            r.0 == spec_argument(*self),
            r.1 == spec_modulus(*self),
    {
        (self.argument(), self.modulus())
    }

    pub fn is_real(&self) -> (r: bool)
        ensures
            r == spec_is_real(*self),
    {
        self.imag.is_zero()
    }

    pub fn neg(self) -> (r: Complex<S>)
        ensures
            r == spec_cneg(self),
    {
        Complex { real: self.real.neg(), imag: self.imag.neg() }
    }

    pub fn add(self, rhs: Complex<S>) -> (r: Complex<S>)
        ensures
            r == spec_cadd(self, rhs),
    {
        Complex { real: self.real.add(rhs.real), imag: self.imag.add(rhs.imag) }
    }

    pub fn sub(self, rhs: Complex<S>) -> (r: Complex<S>)
        ensures
            r == spec_csub(self, rhs),
    {
        Complex { real: self.real.sub(rhs.real), imag: self.imag.sub(rhs.imag) }
    }

    pub fn mul(self, rhs: Complex<S>) -> (r: Complex<S>)
        ensures
            r == spec_cmul(self, rhs),
    {
        Complex {
            real: self.real.mul(rhs.real).sub(self.imag.mul(rhs.imag)),
            imag: self.real.mul(rhs.imag).add(self.imag.mul(rhs.real)),
        }
    }

    pub fn div(self, rhs: Complex<S>) -> (r: Complex<S>)
        ensures
            r == spec_cdiv(self, rhs),
    {
        let sq = rhs.squared_modulus();
        self.mul(Complex { real: rhs.real.div(sq), imag: rhs.imag.neg().div(sq) })
    }

    pub fn add_real(self, rhs: S) -> (r: Complex<S>)
        ensures
            r == spec_cadd_real(self, rhs),
    {
        Complex { real: self.real.add(rhs), imag: self.imag }
    }

    pub fn sub_real(self, rhs: S) -> (r: Complex<S>)
        ensures
            r == spec_csub_real(self, rhs),
    {
        Complex { real: self.real.sub(rhs), imag: self.imag }
    }

    pub fn mul_real(self, rhs: S) -> (r: Complex<S>)
        ensures
            r == spec_cmul_real(self, rhs),
    {
        Complex { real: self.real.mul(rhs), imag: self.imag.mul(rhs) }
    }

    pub fn div_real(self, rhs: S) -> (r: Complex<S>)
        ensures
            r == spec_cdiv_real(self, rhs),
    {
        Complex { real: self.real.div(rhs), imag: self.imag.div(rhs) }
    }

    /// The logarithm of a bare scalar, with its own real-axis branch choice.
    pub fn log_real(x: S) -> (r: Complex<S>)
        ensures
            r == spec_log_real(x),
    {
        Complex {
            real: x.abs().ln(),
            imag: if x.is_neg() { S::pi() } else { S::zero() },
        }
    }
}

// ---------------------------------------------------------------------------
// The operator traits of the public surface.
// ---------------------------------------------------------------------------

/// Raising to a power; implemented for both a real and a complex exponent.
pub trait Pow<T> {
    type Output;

    /// The value the power returns.
    spec fn pow_spec(self, exp: T) -> Self::Output;

    fn pow(self, exp: T) -> (r: Self::Output)
        ensures
            r == self.pow_spec(exp),
    ;
}

/// The exponential function.
pub trait Exp {
    type Output;

    /// The value the exponential returns.
    spec fn exp_spec(self) -> Self::Output;

    fn exp(self) -> (r: Self::Output)
        ensures
            r == self.exp_spec(),
    ;
}

/// The principal-branch natural logarithm.
pub trait Log {
    type Output;

    /// The value the logarithm returns.
    spec fn log_spec(self) -> Self::Output;

    fn log(self) -> (r: Self::Output)
        ensures
            r == self.log_spec(),
    ;
}

/// The three direct trigonometric functions.
pub trait Trig {
    type Output;

    /// The value the sine returns.
    spec fn sin_spec(self) -> Self::Output;

    /// The value the cosine returns.
    spec fn cos_spec(self) -> Self::Output;

    /// The value the tangent returns.
    spec fn tan_spec(self) -> Self::Output;

    fn sin(self) -> (r: Self::Output)
        ensures
            r == self.sin_spec(),
    ;

    fn cos(self) -> (r: Self::Output)
        ensures
            r == self.cos_spec(),
    ;

    fn tan(self) -> (r: Self::Output)
        ensures
            r == self.tan_spec(),
    ;
}

/// The three inverse trigonometric functions, through their logarithmic
/// identities.
pub trait InverseTrig {
    type Output;

    /// The value the arcsine returns.
    spec fn arcsin_spec(self) -> Self::Output;

    /// The value the arccosine returns.
    spec fn arccos_spec(self) -> Self::Output;

    /// The value the arctangent returns.
    spec fn arctan_spec(self) -> Self::Output;

    fn arcsin(self) -> (r: Self::Output)
        ensures
            r == self.arcsin_spec(),
    ;

    fn arccos(self) -> (r: Self::Output)
        ensures
            r == self.arccos_spec(),
    ;

    fn arctan(self) -> (r: Self::Output)
        ensures
            r == self.arctan_spec(),
    ;
}

/// Complex conjugation.
pub trait Conj {
    type Output;

    /// The value the conjugation returns.
    spec fn conj_spec(self) -> Self::Output;

    fn conj(self) -> (r: Self::Output)
        ensures
            r == self.conj_spec(),
    ;
}

impl<S: Scalar> Pow<S> for Complex<S> {
    type Output = Complex<S>;

    open spec fn pow_spec(self, exp: S) -> Complex<S> {
        spec_cpow_real(self, exp)
    }

    fn pow(self, exp: S) -> (r: Complex<S>) {
        self.log().mul_real(exp).exp()
    }
}

impl<S: Scalar> Pow<Complex<S>> for Complex<S> {
    type Output = Complex<S>;

    open spec fn pow_spec(self, exp: Complex<S>) -> Complex<S> {
        spec_cpow(self, exp)
    }

    fn pow(self, exp: Complex<S>) -> (r: Complex<S>) {
        self.log().mul(exp).exp()
    }
}

impl<S: Scalar> Exp for Complex<S> {
    type Output = Complex<S>;

    open spec fn exp_spec(self) -> Complex<S> {
        spec_cexp(self)
    }

    fn exp(self) -> (r: Complex<S>) {
        Complex {
            real: self.imag.cos().mul(self.real.exp()),
            imag: self.imag.sin().mul(self.real.exp()),
        }
    }
}

impl<S: Scalar> Log for Complex<S> {
    type Output = Complex<S>;

    open spec fn log_spec(self) -> Complex<S> {
        spec_clog(self)
    }

    fn log(self) -> (r: Complex<S>) {
        Complex { real: self.modulus().ln(), imag: self.argument() }
    }
}

impl<S: Scalar> Trig for Complex<S> {
    type Output = Complex<S>;

    open spec fn sin_spec(self) -> Complex<S> {
        spec_csin(self)
    }

    open spec fn cos_spec(self) -> Complex<S> {
        spec_ccos(self)
    }

    open spec fn tan_spec(self) -> Complex<S> {
        spec_ctan(self)
    }

    fn sin(self) -> (r: Complex<S>) {
        let em = self.imag.neg().exp();
        let ep = self.imag.exp();
        Complex {
            real: self.real.sin().mul(em.add(ep)).div(S::two()),
            imag: self.real.cos().neg().mul(em.sub(ep)).div(S::two()),
        }
    }

    fn cos(self) -> (r: Complex<S>) {
        let em = self.imag.neg().exp();
        let ep = self.imag.exp();
        Complex {
            real: self.real.cos().mul(em.add(ep)).div(S::two()),
            imag: self.real.sin().mul(em.sub(ep)).div(S::two()),
        }
    }

    fn tan(self) -> (r: Complex<S>) {
        let eiz = Complex::i().mul(self).exp();
        let emiz = Complex::i().neg().mul(self).exp();
        Complex::i().neg().mul(eiz.sub(emiz)).div(eiz.add(emiz))
    }
}

impl<S: Scalar> InverseTrig for Complex<S> {
    type Output = Complex<S>;

    open spec fn arcsin_spec(self) -> Complex<S> {
        spec_carcsin(self)
    }

    open spec fn arccos_spec(self) -> Complex<S> {
        spec_carccos(self)
    }

    open spec fn arctan_spec(self) -> Complex<S> {
        spec_carctan(self)
    }

    fn arcsin(self) -> (r: Complex<S>) {
        let root = Complex::from_real(S::one()).sub(self.pow(S::two())).pow(S::half());
        Complex::i().neg().mul(root.add(Complex::i().mul(self)).log())
    }

    fn arccos(self) -> (r: Complex<S>) {
        let root = Complex::from_real(S::one()).sub(self.pow(S::two())).pow(S::half());
        Complex::i().neg().mul(Complex::i().mul(root).log())
    }

    fn arctan(self) -> (r: Complex<S>) {
        let ratio = Complex::from_real(S::one()).add(Complex::i().mul(self)).div(
            Complex::from_real(S::one()).sub(Complex::i().mul(self)),
        );
        Complex::i().neg().div_real(S::two()).mul(ratio.log())
    }
}

impl<S: Scalar> Conj for Complex<S> {
    type Output = Complex<S>;

    open spec fn conj_spec(self) -> Complex<S> {
        spec_conj(self)
    }

    fn conj(self) -> (r: Complex<S>) {
        Complex { real: self.real, imag: self.imag.neg() }
    }
}

} // verus!

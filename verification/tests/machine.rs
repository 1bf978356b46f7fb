use complex_nw::{
    compile, ColorMapper, Complex, Evaluate, Function, FastMathInstr, MathInstruction, Scalar,
    SyntaxError, Validate,
};
use complex_nw::compile::imag_markers_check;

/// The IEEE single-precision model of the library's scalar, computed with
/// the libm routines a bare-metal build links.
#[derive(Clone, Copy, Debug, PartialEq)]
struct F(f32);

impl Scalar for F {
    fn add(self, rhs: F) -> F {
        F(self.0 + rhs.0)
    }
    fn sub(self, rhs: F) -> F {
        F(self.0 - rhs.0)
    }
    fn mul(self, rhs: F) -> F {
        F(self.0 * rhs.0)
    }
    fn div(self, rhs: F) -> F {
        F(self.0 / rhs.0)
    }
    fn neg(self) -> F {
        F(-self.0)
    }
    fn sin(self) -> F {
        F(libm::sinf(self.0))
    }
    fn cos(self) -> F {
        F(libm::cosf(self.0))
    }
    fn exp(self) -> F {
        F(libm::expf(self.0))
    }
    fn ln(self) -> F {
        F(libm::logf(self.0))
    }
    fn sqrt(self) -> F {
        F(libm::sqrtf(self.0))
    }
    fn atan2(self, x: F) -> F {
        F(libm::atan2f(self.0, x.0))
    }
    fn abs(self) -> F {
        F(libm::fabsf(self.0))
    }
    fn is_zero(self) -> bool {
        self.0 == 0.0
    }
    fn is_neg(self) -> bool {
        self.0 < 0.0
    }
    fn zero() -> F {
        F(0.0)
    }
    fn one() -> F {
        F(1.0)
    }
    fn two() -> F {
        F(2.0)
    }
    fn half() -> F {
        F(0.5)
    }
    fn pi() -> F {
        F(core::f32::consts::PI)
    }
    fn e() -> F {
        F(core::f32::consts::E)
    }
    fn text(self) -> String {
        format!("{}", self.0)
    }
}

fn c(re: f32, im: f32) -> Complex<F> {
    Complex { real: F(re), imag: F(im) }
}

fn close(a: f32, b: f32) -> bool {
    let scale = 1.0 + libm::fabsf(b);
    libm::fabsf(a - b) < 1e-4 * scale
}

fn close_c(a: Complex<F>, b: Complex<F>) -> bool {
    close(a.real.0, b.real.0) && close(a.imag.0, b.imag.0)
}

#[test]
fn identity_program() {
    let f = Function::from_slice(&[MathInstruction::Z]);
    assert!(f.validate().is_ok());
    let z = c(2.0, 3.0);
    let r = f.eval(z);
    assert_eq!(r.real.0, 2.0);
    assert_eq!(r.imag.0, 3.0);
    let fast = compile(&f);
    let rf = fast.eval(z);
    assert_eq!(rf.real.0, 2.0);
    assert_eq!(rf.imag.0, 3.0);
}

#[test]
fn square_becomes_fused_power() {
    let f = Function::from_slice(&[
        MathInstruction::Z,
        MathInstruction::Number(F(2.0)),
        MathInstruction::Pow,
    ]);
    assert!(f.validate().is_ok());
    let fast = compile(&f);
    assert_eq!(fast.len(), 2);
    assert_eq!(*fast.get(0), FastMathInstr::Z);
    assert_eq!(*fast.get(1), FastMathInstr::PowR(F(2.0)));
    let r = fast.eval(c(0.0, 1.0));
    assert!(close_c(r, c(-1.0, 0.0)));
}

#[test]
fn literal_addition_folds_to_one_literal() {
    let f = Function::from_slice(&[
        MathInstruction::Number(F(1.0)),
        MathInstruction::Number(F(2.0)),
        MathInstruction::Add,
    ]);
    assert!(f.validate().is_ok());
    let fast = compile(&f);
    assert_eq!(fast.len(), 1);
    assert_eq!(*fast.get(0), FastMathInstr::Number(c(3.0, 0.0)));
    let r = fast.eval(c(7.0, -7.0));
    assert_eq!(r.real.0, 3.0);
    assert_eq!(r.imag.0, 0.0);
}

#[test]
fn missing_operand_is_rejected_at_the_operator() {
    let f = Function::from_slice(&[MathInstruction::Number(F(1.0)), MathInstruction::Div]);
    let e = f.validate().unwrap_err();
    assert_eq!(e, SyntaxError { op_index: 1 });
}

#[test]
fn operator_on_empty_stack_is_rejected_at_index_zero() {
    let f = Function::<F>::from_slice(&[MathInstruction::Add]);
    let e = f.validate().unwrap_err();
    assert_eq!(e.op_index, 0);
}

#[test]
fn leftover_value_reports_end_sentinel() {
    let f = Function::<F>::from_slice(&[MathInstruction::Z, MathInstruction::Z]);
    let e = f.validate().unwrap_err();
    assert_eq!(e.op_index, usize::MAX);
}

#[test]
fn empty_program_reports_end_sentinel() {
    let f = Function::<F>::default();
    let e = f.validate().unwrap_err();
    assert_eq!(e.op_index, usize::MAX);
}

#[test]
fn stack_overflow_is_rejected_at_the_push() {
    let instrs = vec![MathInstruction::Number(F(1.0)); 33];
    let f = Function::from_slice(&instrs);
    let e = f.validate().unwrap_err();
    assert_eq!(e.op_index, 32);
}

#[test]
fn division_by_zero_evaluates_to_non_finite() {
    let f = Function::from_slice(&[
        MathInstruction::Z,
        MathInstruction::Number(F(0.0)),
        MathInstruction::Div,
    ]);
    assert!(f.validate().is_ok());
    let r = f.eval(c(1.0, 0.0));
    assert!(!r.real.0.is_finite() || !r.imag.0.is_finite() || r.real.0.is_nan() || r.imag.0.is_nan());
    let fast = compile(&f);
    let rf = fast.eval(c(1.0, 0.0));
    assert!(!rf.real.0.is_finite() || !rf.imag.0.is_finite() || rf.real.0.is_nan() || rf.imag.0.is_nan());
}

#[test]
fn compilation_is_deterministic() {
    let f = Function::from_slice(&[
        MathInstruction::Z,
        MathInstruction::Number(F(2.0)),
        MathInstruction::Pow,
        MathInstruction::Number(F(1.0)),
        MathInstruction::Add,
        MathInstruction::Sin,
    ]);
    let a = compile(&f);
    let b = compile(&f);
    assert_eq!(a, b);
}

#[test]
fn round_trip_on_sampled_inputs() {
    let f = Function::from_slice(&[
        MathInstruction::Z,
        MathInstruction::Z,
        MathInstruction::Mul,
        MathInstruction::Number(F(1.0)),
        MathInstruction::Add,
        MathInstruction::Sin,
        MathInstruction::Z,
        MathInstruction::Number(F(0.5)),
        MathInstruction::Mul,
        MathInstruction::Add,
    ]);
    assert!(f.validate().is_ok());
    let fast = compile(&f);
    let samples = [
        c(0.0, 0.0),
        c(1.5, 0.0),
        c(0.0, -2.0),
        c(0.75, -1.25),
        c(-3.0, 2.0),
    ];
    for z in samples {
        let a = f.eval(z);
        let b = fast.eval(z);
        assert!(close_c(a, b), "mismatch at {z:?}: {a:?} vs {b:?}");
    }
}

#[test]
fn round_trip_through_non_finite_subexpressions() {
    // 1 / z drives the intermediate value to infinity at z = 0.
    let f = Function::from_slice(&[
        MathInstruction::Number(F(1.0)),
        MathInstruction::Z,
        MathInstruction::Div,
    ]);
    assert!(f.validate().is_ok());
    let fast = compile(&f);
    let a = f.eval(c(0.0, 0.0));
    let b = fast.eval(c(0.0, 0.0));
    assert_eq!(a.real.0.is_nan(), b.real.0.is_nan());
    assert_eq!(a.imag.0.is_nan(), b.imag.0.is_nan());
    if !a.real.0.is_nan() {
        assert_eq!(a.real.0, b.real.0);
    }
    if !a.imag.0.is_nan() {
        assert_eq!(a.imag.0, b.imag.0);
    }
}

#[test]
fn imaginary_literal_marker_compiles_to_imaginary_literal() {
    let f = Function::from_slice(&[
        MathInstruction::Number(F(2.0)),
        MathInstruction::Imag,
        MathInstruction::Z,
        MathInstruction::Mul,
    ]);
    assert!(f.validate().is_ok());
    assert!(imag_markers_check(&f));
    let fast = compile(&f);
    let z = c(3.0, -1.0);
    let a = f.eval(z);
    let b = fast.eval(z);
    assert!(close_c(a, b));
    // 2i * (3 - i) = 2 + 6i
    assert!(close_c(b, c(2.0, 6.0)));
}

#[test]
fn stray_marker_is_flagged_and_still_evaluates() {
    let f = Function::from_slice(&[MathInstruction::Z, MathInstruction::Imag]);
    assert!(f.validate().is_ok());
    assert!(!imag_markers_check(&f));
    // The raw interpreter multiplies the top of the stack by i.
    let r = f.eval(c(2.0, 1.0));
    assert!(close_c(r, c(-1.0, 2.0)));
}

#[test]
fn constants_fold_with_following_operators() {
    // pi e + == a single literal.
    let f = Function::<F>::from_slice(&[
        MathInstruction::Pi,
        MathInstruction::E,
        MathInstruction::Add,
    ]);
    let fast = compile(&f);
    assert_eq!(fast.len(), 1);
    let r = fast.eval(c(0.0, 0.0));
    assert!(close(r.real.0, core::f32::consts::PI + core::f32::consts::E));
    assert_eq!(r.imag.0, 0.0);
}

#[test]
fn transcendental_of_literal_folds() {
    // cos(0) folds to the literal 1.
    let f = Function::<F>::from_slice(&[MathInstruction::Number(F(0.0)), MathInstruction::Cos]);
    let fast = compile(&f);
    assert_eq!(fast.len(), 1);
    let r = fast.eval(c(5.0, 5.0));
    assert!(close(r.real.0, 1.0));
    assert!(close(r.imag.0, 0.0));
}

#[test]
fn sqrt_lowers_to_half_power() {
    let f = Function::<F>::from_slice(&[MathInstruction::Z, MathInstruction::Sqrt]);
    let fast = compile(&f);
    let r = fast.eval(c(4.0, 0.0));
    assert!(close_c(r, c(2.0, 0.0)));
}

#[test]
fn program_capacity_is_enforced() {
    let mut f = Function::<F>::default();
    for _ in 0..255 {
        assert!(f.push(MathInstruction::Z).is_ok());
    }
    assert!(f.push(MathInstruction::Z).is_err());
    assert_eq!(f.len(), 255);
    assert_eq!(f.pop(), Some(MathInstruction::Z));
    assert_eq!(f.len(), 254);
}

#[test]
fn pop_on_empty_program_is_a_no_op() {
    let mut f = Function::<F>::default();
    assert_eq!(f.pop(), None);
    assert_eq!(f.len(), 0);
}

#[test]
fn program_renders_as_spaced_tokens() {
    let f = Function::from_slice(&[
        MathInstruction::Z,
        MathInstruction::Number(F(2.5)),
        MathInstruction::Add,
    ]);
    assert_eq!(f.to_text(), " Z 2.5 +\0");
}

#[test]
fn rendering_covers_every_token() {
    let f = Function::<F>::from_slice(&[
        MathInstruction::ZConj,
        MathInstruction::Pi,
        MathInstruction::E,
        MathInstruction::Imag,
        MathInstruction::Conj,
        MathInstruction::Sub,
        MathInstruction::Mul,
        MathInstruction::Div,
        MathInstruction::Pow,
        MathInstruction::Sqrt,
        MathInstruction::Exp,
        MathInstruction::Ln,
        MathInstruction::Log,
        MathInstruction::Sin,
        MathInstruction::Cos,
        MathInstruction::Tan,
        MathInstruction::Arcsin,
        MathInstruction::Arccos,
        MathInstruction::Arctan,
    ]);
    assert_eq!(
        f.to_text(),
        " Z* pi e i _ - * / ^ sqrt e^ ln log sin cos tan arcsin arccos arctan\0"
    );
}

#[test]
fn fused_input_operand_forms_are_used() {
    // z * z: the second push of z fuses into MulZ.
    let f = Function::<F>::from_slice(&[
        MathInstruction::Z,
        MathInstruction::Z,
        MathInstruction::Mul,
    ]);
    let fast = compile(&f);
    assert_eq!(fast.len(), 2);
    assert_eq!(*fast.get(0), FastMathInstr::Z);
    assert_eq!(*fast.get(1), FastMathInstr::MulZ);
    let r = fast.eval(c(0.0, 1.0));
    assert!(close_c(r, c(-1.0, 0.0)));
}

#[test]
fn real_immediates_are_specialized() {
    // z + 1: the fused complex immediate (1, 0) becomes a real immediate.
    let f = Function::<F>::from_slice(&[
        MathInstruction::Z,
        MathInstruction::Number(F(1.0)),
        MathInstruction::Add,
    ]);
    let fast = compile(&f);
    assert_eq!(fast.len(), 2);
    assert_eq!(*fast.get(0), FastMathInstr::Z);
    assert_eq!(*fast.get(1), FastMathInstr::AddR(F(1.0)));
}

#[test]
fn conjugation_instructions_agree() {
    let via_zconj = Function::<F>::from_slice(&[MathInstruction::ZConj]);
    let via_conj = Function::<F>::from_slice(&[MathInstruction::Z, MathInstruction::Conj]);
    let z = c(1.5, -2.5);
    let a = via_zconj.eval(z);
    let b = via_conj.eval(z);
    assert_eq!((a.real.0, a.imag.0), (1.5, 2.5));
    assert_eq!((b.real.0, b.imag.0), (1.5, 2.5));
    let fast = compile(&via_conj);
    let d = fast.eval(z);
    assert_eq!((d.real.0, d.imag.0), (1.5, 2.5));
}

#[test]
fn explicit_base_logarithm_specializes_to_real_immediate() {
    // log_10 z: the literal base fuses into the operator as its logarithm,
    // which is purely real and so specializes further.
    let f = Function::<F>::from_slice(&[
        MathInstruction::Z,
        MathInstruction::Number(F(10.0)),
        MathInstruction::Log,
    ]);
    assert!(f.validate().is_ok());
    let fast = compile(&f);
    assert_eq!(fast.len(), 2);
    assert_eq!(*fast.get(0), FastMathInstr::Z);
    assert_eq!(*fast.get(1), FastMathInstr::LogR(F(libm::logf(10.0))));
    let r = fast.eval(c(100.0, 0.0));
    assert!(close_c(r, c(2.0, 0.0)));
    let raw = f.eval(c(100.0, 0.0));
    assert!(close_c(raw, c(2.0, 0.0)));
}

#[test]
fn transcendental_of_input_fuses_to_producer() {
    let f = Function::<F>::from_slice(&[MathInstruction::Z, MathInstruction::Ln]);
    let fast = compile(&f);
    assert_eq!(fast.len(), 1);
    assert_eq!(*fast.get(0), FastMathInstr::LnZ);
    let r = fast.eval(c(core::f32::consts::E, 0.0));
    assert!(close_c(r, c(1.0, 0.0)));
}

#[test]
fn input_as_right_operand_fuses() {
    // 1 - z: the push of z fuses into the subtraction.
    let f = Function::<F>::from_slice(&[
        MathInstruction::Number(F(1.0)),
        MathInstruction::Z,
        MathInstruction::Sub,
    ]);
    let fast = compile(&f);
    assert_eq!(fast.len(), 2);
    assert_eq!(*fast.get(0), FastMathInstr::Number(c(1.0, 0.0)));
    assert_eq!(*fast.get(1), FastMathInstr::SubZ);
    let r = fast.eval(c(0.25, 2.0));
    assert!(close_c(r, c(0.75, -2.0)));
}

#[test]
fn trailing_marker_folds_into_one_literal() {
    let f = Function::<F>::from_slice(&[MathInstruction::Number(F(2.0)), MathInstruction::Imag]);
    assert!(f.validate().is_ok());
    assert!(imag_markers_check(&f));
    let fast = compile(&f);
    assert_eq!(fast.len(), 1);
    assert_eq!(*fast.get(0), FastMathInstr::Number(c(0.0, 2.0)));
}

#[test]
fn raw_interpreter_covers_constants_and_unary_operators() {
    // sqrt(pi), evaluated without compiling.
    let f = Function::<F>::from_slice(&[MathInstruction::Pi, MathInstruction::Sqrt]);
    assert!(f.validate().is_ok());
    let r = f.eval(c(0.0, 0.0));
    assert!(close(r.real.0, libm::sqrtf(core::f32::consts::PI)));
    assert!(close(r.imag.0, 0.0));
    // ln(e) = 1.
    let g = Function::<F>::from_slice(&[MathInstruction::E, MathInstruction::Ln]);
    let rg = g.eval(c(0.0, 0.0));
    assert!(close(rg.real.0, 1.0));
    // tan of a real input stays real.
    let h = Function::<F>::from_slice(&[MathInstruction::Z, MathInstruction::Tan]);
    let rh = h.eval(c(0.3, 0.0));
    assert!(close(rh.real.0, libm::tanf(0.3)));
    assert!(close(rh.imag.0, 0.0));
}

#[test]
fn key_release_wait_decision() {
    assert!(!complex_nw::wait_till_released(true));
    assert!(complex_nw::wait_till_released(false));
}

#[test]
fn color_mapper_selection_is_comparable() {
    let m = ColorMapper::Sigmoid;
    assert_eq!(m, ColorMapper::Sigmoid);
    assert_ne!(m, ColorMapper::Checkerboard);
}

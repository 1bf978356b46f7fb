//! The optimized instruction set and its stack discipline.

use vstd::prelude::*;

use crate::complex::Complex;
use crate::function::{FUNCTION_SIZE, STACK_SIZE};
use crate::scalar::Scalar;

verus! {

/// One instruction of the optimized ("fast") repertoire.
///
/// Beside the generic stack forms (`AddS` pops both operands) it has
/// specialized forms the compiler introduces: an immediate complex operand
/// (`Add(c)`), an immediate purely real operand computed with
/// single-component arithmetic (`AddR(r)`), the live input as implicit
/// operand (`AddZ`), and producers that push a freshly computed function of
/// the live input (`ExpZ`).
#[derive(Clone, Copy, Debug, PartialEq)]
pub enum FastMathInstr<S> {
    /// Push the live input.
    Z,
    /// Push the conjugate of the live input.
    ZConj,
    /// Push an immediate complex value.
    Number(Complex<S>),
    /// Conjugate the top of the stack.
    Conj,

    Add(Complex<S>),
    Sub(Complex<S>),
    Mul(Complex<S>),
    Div(Complex<S>),
    Pow(Complex<S>),

    AddR(S),
    SubR(S),
    MulR(S),
    DivR(S),
    PowR(S),

    AddZ,
    SubZ,
    MulZ,
    DivZ,
    PowZ,

    AddS,
    SubS,
    MulS,
    DivS,
    PowS,

    /// Push exp of the live input.
    ExpZ,
    /// Push log of the live input.
    LnZ,

    Exp,
    Ln,

    /// Divide the logarithm of the top by an immediate logarithm-of-base.
    Log(Complex<S>),
    LogR(S),
    LogZ,
    LogS,

    SinZ,
    CosZ,
    TanZ,

    Sin,
    Cos,
    Tan,

    ArcsinZ,
    ArccosZ,
    ArctanZ,

    Arcsin,
    Arccos,
    Arctan,
}

// ---------------------------------------------------------------------------
// The stack discipline of the fast repertoire.
// ---------------------------------------------------------------------------

pub open spec fn fast_is_producer<S>(i: FastMathInstr<S>) -> bool {
    ||| i is Z
    ||| i is ZConj
    ||| i is Number
    ||| i is ExpZ
    ||| i is LnZ
    ||| i is SinZ
    ||| i is CosZ
    ||| i is TanZ
    ||| i is ArcsinZ
    ||| i is ArccosZ
    ||| i is ArctanZ
}

pub open spec fn fast_is_binary<S>(i: FastMathInstr<S>) -> bool {
    ||| i is AddS
    ||| i is SubS
    ||| i is MulS
    ||| i is DivS
    ||| i is PowS
    ||| i is LogS
}

pub open spec fn fast_is_unary<S>(i: FastMathInstr<S>) -> bool {
    !fast_is_producer(i) && !fast_is_binary(i)
}

pub open spec fn fast_step_depth<S>(i: FastMathInstr<S>, d: int) -> int {
    if fast_is_producer(i) {
        d + 1
    } else if fast_is_binary(i) {
        d - 1
    } else {
        d
    }
}

pub open spec fn fast_step_ok<S>(i: FastMathInstr<S>, d: int) -> bool {
    if fast_is_producer(i) {
        d < STACK_SIZE
    } else if fast_is_binary(i) {
        d >= 2
    } else {
        d >= 1
    }
}

/// Whether a whole fast program respects the stack discipline when started
/// at depth `d`.
pub open spec fn fast_scan_ok<S>(s: Seq<FastMathInstr<S>>, d: int) -> bool
    decreases s.len(),
{
    if s.len() == 0 {
        true
    } else {
        fast_step_ok(s[0], d) && fast_scan_ok(s.skip(1), fast_step_depth(s[0], d))
    }
}

pub open spec fn fast_final_depth<S>(s: Seq<FastMathInstr<S>>, d: int) -> int
    decreases s.len(),
{
    if s.len() == 0 {
        d
    } else {
        fast_final_depth(s.skip(1), fast_step_depth(s[0], d))
    }
}

/// A well-formed fast program: safe on the fixed 32-slot stack and leaving
/// exactly one value.  Every compiled program satisfies this.
pub open spec fn fast_wf<S>(s: Seq<FastMathInstr<S>>) -> bool {
    fast_scan_ok(s, 0) && fast_final_depth(s, 0) == 1
}

/// An optimized program, the compiler's output, bounded like the raw form.
#[derive(Clone, Debug, PartialEq)]
pub struct FastFunction<S> {
    instructions: Vec<FastMathInstr<S>>,
}

impl<S> View for FastFunction<S> {
    type V = Seq<FastMathInstr<S>>;

    closed spec fn view(&self) -> Seq<FastMathInstr<S>> {
        self.instructions@
    }
}

impl<S: Scalar> FastFunction<S> {
    /// Wraps an instruction sequence; the compiler builds its result here.
    pub fn from_vec(instructions: Vec<FastMathInstr<S>>) -> (r: Self)
        requires
            instructions@.len() <= FUNCTION_SIZE,
        ensures
            r@ == instructions@,
    {
        FastFunction { instructions }
    }

    pub fn len(&self) -> (r: usize)
        ensures
            r == self@.len(),
    {
        self.instructions.len()
    }

    pub fn get(&self, idx: usize) -> (r: &FastMathInstr<S>)
        requires
            idx < self@.len(),
        ensures
            *r == self@[idx as int],
    {
        &self.instructions[idx]
    }
}

impl<S: Scalar> Default for FastFunction<S> {
    /// The empty fast program.
    fn default() -> (r: Self)
        ensures
            r@ == Seq::<FastMathInstr<S>>::empty(),
    {
        FastFunction { instructions: Vec::new() }
    }
}

} // verus!

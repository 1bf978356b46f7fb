//! The operational semantics of both instruction sets and the two
//! interpreters.

use vstd::prelude::*;

use crate::complex::{
    spec_carccos, spec_carcsin, spec_carctan, spec_cadd, spec_cadd_real, spec_ccos, spec_cdiv,
    spec_cdiv_real, spec_cexp, spec_clog, spec_cmul, spec_cmul_real, spec_conj, spec_cpow,
    spec_cpow_real, spec_csin, spec_csub, spec_csub_real, spec_ctan, spec_from_imag,
    spec_from_real, Complex, Conj, Exp, InverseTrig, Log, Pow, Trig,
};
use crate::fast::{
    fast_is_binary, fast_is_producer, fast_is_unary, fast_scan_ok, fast_final_depth, fast_wf,
    fast_step_depth, fast_step_ok, FastFunction, FastMathInstr,
};
use crate::function::{
    final_depth, is_binary, is_producer, is_unary, scan_bad_index, step_depth, step_ok, valid_ok,
    Function, MathInstruction, STACK_SIZE,
};
use crate::scalar::Scalar;

verus! {

// ---------------------------------------------------------------------------
// The operational model of the raw repertoire: what each instruction pushes
// or computes, and how a whole program transforms a stack.  `None` marks a
// stack underflow; a validated program never produces one.
// ---------------------------------------------------------------------------

/// The value a raw producer pushes.
pub open spec fn raw_produced<S: Scalar>(i: MathInstruction<S>, z: Complex<S>) -> Complex<S>
    recommends
        is_producer(i),
{
    match i {
        MathInstruction::Z => z,
        MathInstruction::ZConj => spec_conj(z),
        MathInstruction::Number(x) => spec_from_real(x),
        MathInstruction::Pi => spec_from_real(S::spec_pi()),
        MathInstruction::E => spec_from_real(S::spec_e()),
        _ => arbitrary(),
    }
}

/// The value a raw unary operator leaves in place of the top `c`.
pub open spec fn raw_unary_apply<S: Scalar>(i: MathInstruction<S>, c: Complex<S>) -> Complex<S>
    recommends
        is_unary(i),
{
    match i {
        MathInstruction::Conj => spec_conj(c),
        MathInstruction::Imag => spec_cmul(c, spec_from_imag(S::spec_one())),
        MathInstruction::Sqrt => spec_cpow_real(c, S::spec_half()),
        MathInstruction::Exp => spec_cexp(c),
        MathInstruction::Ln => spec_clog(c),
        MathInstruction::Sin => spec_csin(c),
        MathInstruction::Cos => spec_ccos(c),
        MathInstruction::Tan => spec_ctan(c),
        MathInstruction::Arcsin => spec_carcsin(c),
        MathInstruction::Arccos => spec_carccos(c),
        MathInstruction::Arctan => spec_carctan(c),
        _ => arbitrary(),
    }
}

/// The value a raw binary operator leaves in place of its two operands;
/// `l` sits below `r` on the stack.
pub open spec fn raw_binary_apply<S: Scalar>(
    i: MathInstruction<S>,
    l: Complex<S>,
    r: Complex<S>,
) -> Complex<S>
    recommends
        is_binary(i),
{
    match i {
        MathInstruction::Add => spec_cadd(l, r),
        MathInstruction::Sub => spec_csub(l, r),
        MathInstruction::Mul => spec_cmul(l, r),
        MathInstruction::Div => spec_cdiv(l, r),
        MathInstruction::Pow => spec_cpow(l, r),
        MathInstruction::Log => spec_cdiv(spec_clog(l), spec_clog(r)),
        _ => arbitrary(),
    }
}

/// One raw instruction applied to a stack.
pub open spec fn raw_step<S: Scalar>(
    i: MathInstruction<S>,
    z: Complex<S>,
    st: Seq<Complex<S>>,
) -> Option<Seq<Complex<S>>> {
    if is_producer(i) {
        Some(st.push(raw_produced(i, z)))
    } else if is_unary(i) {
        if st.len() >= 1 {
            Some(st.drop_last().push(raw_unary_apply(i, st.last())))
        } else {
            None
        }
    } else {
        if st.len() >= 2 {
            Some(
                st.drop_last().drop_last().push(
                    raw_binary_apply(i, st[st.len() - 2], st.last()),
                ),
            )
        } else {
            None
        }
    }
}

/// A whole raw program applied to a stack.
pub open spec fn run_raw<S: Scalar>(
    s: Seq<MathInstruction<S>>,
    z: Complex<S>,
    st: Seq<Complex<S>>,
) -> Option<Seq<Complex<S>>>
    decreases s.len(),
{
    if s.len() == 0 {
        Some(st)
    } else {
        match raw_step(s[0], z, st) {
            None => None,
            Some(st2) => run_raw(s.skip(1), z, st2),
        }
    }
}

/// The value a raw program evaluates to at input `z`.
pub open spec fn spec_eval_raw<S: Scalar>(s: Seq<MathInstruction<S>>, z: Complex<S>) -> Complex<
    S,
>
    recommends
        valid_ok(s),
{
    run_raw(s, z, Seq::empty()).unwrap().last()
}

// ---------------------------------------------------------------------------
// The operational model of the fast repertoire.
// ---------------------------------------------------------------------------

/// The value a fast producer pushes.
pub open spec fn fast_produced<S: Scalar>(i: FastMathInstr<S>, z: Complex<S>) -> Complex<S>
    recommends
        fast_is_producer(i),
{
    match i {
        FastMathInstr::Z => z,
        FastMathInstr::ZConj => spec_conj(z),
        FastMathInstr::Number(c) => c,
        FastMathInstr::ExpZ => spec_cexp(z),
        FastMathInstr::LnZ => spec_clog(z),
        FastMathInstr::SinZ => spec_csin(z),
        FastMathInstr::CosZ => spec_ccos(z),
        FastMathInstr::TanZ => spec_ctan(z),
        FastMathInstr::ArcsinZ => spec_carcsin(z),
        FastMathInstr::ArccosZ => spec_carccos(z),
        FastMathInstr::ArctanZ => spec_carctan(z),
        _ => arbitrary(),
    }
}

/// The value a fast unary-arity instruction leaves in place of the top `c`.
pub open spec fn fast_unary_apply<S: Scalar>(
    i: FastMathInstr<S>,
    z: Complex<S>,
    c: Complex<S>,
) -> Complex<S>
    recommends
        fast_is_unary(i),
{
    match i {
        FastMathInstr::Conj => spec_conj(c),
        FastMathInstr::Add(b) => spec_cadd(c, b),
        FastMathInstr::Sub(b) => spec_csub(c, b),
        FastMathInstr::Mul(b) => spec_cmul(c, b),
        FastMathInstr::Div(b) => spec_cdiv(c, b),
        FastMathInstr::Pow(b) => spec_cpow(c, b),
        FastMathInstr::AddR(r) => spec_cadd_real(c, r),
        FastMathInstr::SubR(r) => spec_csub_real(c, r),
        FastMathInstr::MulR(r) => spec_cmul_real(c, r),
        FastMathInstr::DivR(r) => spec_cdiv_real(c, r),
        FastMathInstr::PowR(r) => spec_cpow_real(c, r),
        FastMathInstr::AddZ => spec_cadd(c, z),
        FastMathInstr::SubZ => spec_csub(c, z),
        FastMathInstr::MulZ => spec_cmul(c, z),
        FastMathInstr::DivZ => spec_cdiv(c, z),
        FastMathInstr::PowZ => spec_cpow(c, z),
        FastMathInstr::Exp => spec_cexp(c),
        FastMathInstr::Ln => spec_clog(c),
        FastMathInstr::Log(b) => spec_cdiv(spec_clog(c), b),
        FastMathInstr::LogR(r) => spec_cdiv_real(spec_clog(c), r),
        FastMathInstr::LogZ => spec_cdiv(spec_clog(c), spec_clog(z)),
        FastMathInstr::Sin => spec_csin(c),
        FastMathInstr::Cos => spec_ccos(c),
        FastMathInstr::Tan => spec_ctan(c),
        FastMathInstr::Arcsin => spec_carcsin(c),
        FastMathInstr::Arccos => spec_carccos(c),
        FastMathInstr::Arctan => spec_carctan(c),
        _ => arbitrary(),
    }
}

/// The value a fast binary instruction leaves in place of its operands.
pub open spec fn fast_binary_apply<S: Scalar>(
    i: FastMathInstr<S>,
    l: Complex<S>,
    r: Complex<S>,
) -> Complex<S>
    recommends
        fast_is_binary(i),
{
    match i {
        FastMathInstr::AddS => spec_cadd(l, r),
        FastMathInstr::SubS => spec_csub(l, r),
        FastMathInstr::MulS => spec_cmul(l, r),
        FastMathInstr::DivS => spec_cdiv(l, r),
        FastMathInstr::PowS => spec_cpow(l, r),
        FastMathInstr::LogS => spec_cdiv(spec_clog(l), spec_clog(r)),
        _ => arbitrary(),
    }
}

/// One fast instruction applied to a stack.
pub open spec fn fast_step<S: Scalar>(
    i: FastMathInstr<S>,
    z: Complex<S>,
    st: Seq<Complex<S>>,
) -> Option<Seq<Complex<S>>> {
    if fast_is_producer(i) {
        Some(st.push(fast_produced(i, z)))
    } else if fast_is_binary(i) {
        if st.len() >= 2 {
            Some(
                st.drop_last().drop_last().push(
                    fast_binary_apply(i, st[st.len() - 2], st.last()),
                ),
            )
        } else {
            None
        }
    } else {
        if st.len() >= 1 {
            Some(st.drop_last().push(fast_unary_apply(i, z, st.last())))
        } else {
            None
        }
    }
}

/// A whole fast program applied to a stack.
pub open spec fn run_fast<S: Scalar>(
    s: Seq<FastMathInstr<S>>,
    z: Complex<S>,
    st: Seq<Complex<S>>,
) -> Option<Seq<Complex<S>>>
    decreases s.len(),
{
    if s.len() == 0 {
        Some(st)
    } else {
        match fast_step(s[0], z, st) {
            None => None,
            Some(st2) => run_fast(s.skip(1), z, st2),
        }
    }
}

/// The value a fast program evaluates to at input `z`.
pub open spec fn spec_eval_fast<S: Scalar>(s: Seq<FastMathInstr<S>>, z: Complex<S>) -> Complex<
    S,
>
    recommends
        fast_wf(s),
{
    run_fast(s, z, Seq::empty()).unwrap().last()
}

// ---------------------------------------------------------------------------
// Splitting lemmas used by the interpreters and the compiler proofs.
// ---------------------------------------------------------------------------

/// Running a concatenation runs the parts in order.
pub proof fn lemma_run_fast_concat<S: Scalar>(
    s1: Seq<FastMathInstr<S>>,
    s2: Seq<FastMathInstr<S>>,
    z: Complex<S>,
    st: Seq<Complex<S>>,
)
    ensures
        run_fast(s1 + s2, z, st) == (match run_fast(s1, z, st) {
            None => None,
            Some(m) => run_fast(s2, z, m),
        }),
    decreases s1.len(),
{
    if s1.len() == 0 {
        assert(s1 + s2 =~= s2);
    } else {
        assert((s1 + s2)[0] == s1[0]);
        assert((s1 + s2).skip(1) =~= s1.skip(1) + s2);
        match fast_step(s1[0], z, st) {
            None => {},
            Some(st2) => {
                lemma_run_fast_concat(s1.skip(1), s2, z, st2);
            },
        }
    }
}

// ---------------------------------------------------------------------------
// The interpreters.
// ---------------------------------------------------------------------------

/// Evaluation of a program at one complex input.
pub trait Evaluate<S: Scalar> {
    /// The structural guarantee evaluation relies on: for a raw program the
    /// validator's verdict, for a fast program well-formedness, which the
    /// compiler establishes.
    spec fn eval_wf(&self) -> bool;

    /// The exact value evaluation returns.
    spec fn eval_spec(&self, z: Complex<S>) -> Complex<S>;

    fn eval(&self, z: Complex<S>) -> (r: Complex<S>)
        requires
            self.eval_wf(),
        ensures
            r == self.eval_spec(z),
    ;
}

/// One raw instruction executed against the live stack.
fn raw_step_exec<S: Scalar>(
    i: &MathInstruction<S>,
    z: Complex<S>,
    stack: &mut Vec<Complex<S>>,
)
    requires
        raw_step(*i, z, old(stack)@) is Some,
    ensures
        Some(final(stack)@) == raw_step(*i, z, old(stack)@),
{
    match i {
        MathInstruction::Z => {
            stack.push(z);
        },
        MathInstruction::ZConj => {
            stack.push(z.conj());
        },
        MathInstruction::Number(x) => {
            stack.push(Complex::from_real(*x));
        },
        MathInstruction::Pi => {
            stack.push(Complex::from_real(S::pi()));
        },
        MathInstruction::E => {
            stack.push(Complex::from_real(S::e()));
        },
        MathInstruction::Conj => {
            let c = stack.pop().unwrap();
            stack.push(c.conj());
        },
        MathInstruction::Imag => {
            let c = stack.pop().unwrap();
            stack.push(c.mul(Complex::from_imag(S::one())));
        },
        MathInstruction::Sqrt => {
            let c = stack.pop().unwrap();
            stack.push(c.pow(S::half()));
        },
        MathInstruction::Exp => {
            let c = stack.pop().unwrap();
            stack.push(c.exp());
        },
        MathInstruction::Ln => {
            let c = stack.pop().unwrap();
            stack.push(c.log());
        },
        MathInstruction::Sin => {
            let c = stack.pop().unwrap();
            stack.push(c.sin());
        },
        MathInstruction::Cos => {
            let c = stack.pop().unwrap();
            stack.push(c.cos());
        },
        MathInstruction::Tan => {
            let c = stack.pop().unwrap();
            stack.push(c.tan());
        },
        MathInstruction::Arcsin => {
            let c = stack.pop().unwrap();
            stack.push(c.arcsin());
        },
        MathInstruction::Arccos => {
            let c = stack.pop().unwrap();
            stack.push(c.arccos());
        },
        MathInstruction::Arctan => {
            let c = stack.pop().unwrap();
            stack.push(c.arctan());
        },
        MathInstruction::Add => {
            let rhs = stack.pop().unwrap();
            let lhs = stack.pop().unwrap();
            stack.push(lhs.add(rhs));
        },
        MathInstruction::Sub => {
            let rhs = stack.pop().unwrap();
            let lhs = stack.pop().unwrap();
            stack.push(lhs.sub(rhs));
        },
        MathInstruction::Mul => {
            let rhs = stack.pop().unwrap();
            let lhs = stack.pop().unwrap();
            stack.push(lhs.mul(rhs));
        },
        MathInstruction::Div => {
            let rhs = stack.pop().unwrap();
            let lhs = stack.pop().unwrap();
            stack.push(lhs.div(rhs));
        },
        MathInstruction::Pow => {
            let rhs = stack.pop().unwrap();
            let lhs = stack.pop().unwrap();
            stack.push(lhs.pow(rhs));
        },
        MathInstruction::Log => {
            let rhs = stack.pop().unwrap();
            let lhs = stack.pop().unwrap();
            stack.push(lhs.log().div(rhs.log()));
        },
    }
}

impl<S: Scalar> Evaluate<S> for Function<S> {
    open spec fn eval_wf(&self) -> bool {
        valid_ok(self@)
    }

    open spec fn eval_spec(&self, z: Complex<S>) -> Complex<S> {
        spec_eval_raw(self@, z)
    }

    /// Executes the program left to right on a bounds-checked stack; the
    /// validator's verdict guarantees every pop finds its operands and one
    /// value remains.
    fn eval(&self, z: Complex<S>) -> (r: Complex<S>) {
        let ghost s = self@;
        let n = self.len();
        let mut stack: Vec<Complex<S>> = Vec::new();
        let mut i: usize = 0;

        proof {
            assert(s.skip(0) =~= s);
        }

        while i < n
            invariant
                s == self@,
                n == s.len(),
                i <= n,
                valid_ok(s),
                scan_bad_index(s.skip(i as int), stack@.len() as int) is None,
                final_depth(s.skip(i as int), stack@.len() as int) == 1,
                run_raw(s, z, Seq::empty()) == run_raw(s.skip(i as int), z, stack@),
            decreases n - i,
        {
            let ghost pre = stack@;
            let instr = self.get(i);
            proof {
                assert(s.skip(i as int)[0] == s[i as int]);
                assert(s.skip(i as int).skip(1) =~= s.skip(i as int + 1));
                assert(step_ok(s[i as int], pre.len() as int));
                assert(raw_step(s[i as int], z, pre) is Some);
            }
            raw_step_exec(instr, z, &mut stack);
            proof {
                assert(stack@.len() as int == step_depth(s[i as int], pre.len() as int));
            }
            i = i + 1;
        }

        proof {
            assert(s.skip(n as int) =~= Seq::<MathInstruction<S>>::empty());
        }
        stack.pop().unwrap()
    }
}

// ---------------------------------------------------------------------------
// The fixed evaluation stack of the optimized interpreter: a stack-allocated
// 32-slot array and a depth counter.  Every index below is proven in
// bounds from the well-formedness the compiler establishes — the safety the
// validator's verdict promises.
// ---------------------------------------------------------------------------

/// The values the fixed stack holds: its first `depth` slots.
pub open spec fn stack_model<S: Scalar>(stack: [Complex<S>; 32], depth: int) -> Seq<Complex<S>> {
    stack@.take(depth)
}

/// Writes one produced value into the next free slot.
fn stack_produce<S: Scalar>(stack: &mut [Complex<S>; 32], depth: &mut usize, v: Complex<S>)
    requires
        *old(depth) < 32,
    ensures
        *final(depth) == *old(depth) + 1,
        stack_model(*final(stack), *final(depth) as int) == stack_model(
            *old(stack),
            *old(depth) as int,
        ).push(v),
{
    stack[*depth] = v;
    *depth = *depth + 1;
    proof {
        assert(stack@.take(*depth as int) =~= old(stack)@.take(*depth - 1).push(v));
    }
}

/// Reads the top of the stack.
fn stack_top<S: Scalar>(stack: &[Complex<S>; 32], depth: usize) -> (r: Complex<S>)
    requires
        1 <= depth <= 32,
    ensures
        r == stack_model(*stack, depth as int).last(),
{
    stack[depth - 1]
}

/// Reads the value directly below the top.
fn stack_second<S: Scalar>(stack: &[Complex<S>; 32], depth: usize) -> (r: Complex<S>)
    requires
        2 <= depth <= 32,
    ensures
        r == stack_model(*stack, depth as int)[depth - 2],
{
    stack[depth - 2]
}

/// Replaces the top of the stack, the effect of a unary-arity instruction.
fn stack_replace_top<S: Scalar>(stack: &mut [Complex<S>; 32], depth: usize, v: Complex<S>)
    requires
        1 <= depth <= 32,
    ensures
        stack_model(*final(stack), depth as int) == stack_model(
            *old(stack),
            depth as int,
        ).drop_last().push(v),
{
    stack[depth - 1] = v;
    proof {
        assert(stack@.take(depth as int) =~= old(stack)@.take(
            depth as int,
        ).drop_last().push(v));
    }
}

/// Pops two operands and pushes one result, the effect of a binary
/// instruction.
fn stack_collapse<S: Scalar>(stack: &mut [Complex<S>; 32], depth: &mut usize, v: Complex<S>)
    requires
        2 <= *old(depth) <= 32,
    ensures
        *final(depth) == *old(depth) - 1,
        stack_model(*final(stack), *final(depth) as int) == stack_model(
            *old(stack),
            *old(depth) as int,
        ).drop_last().drop_last().push(v),
{
    stack[*depth - 2] = v;
    *depth = *depth - 1;
    proof {
        assert(stack@.take(*depth as int) =~= old(stack)@.take(
            *depth + 1,
        ).drop_last().drop_last().push(v));
    }
}

impl<S: Scalar> Evaluate<S> for FastFunction<S> {
    open spec fn eval_wf(&self) -> bool {
        fast_wf(self@)
    }

    open spec fn eval_spec(&self, z: Complex<S>) -> Complex<S> {
        spec_eval_fast(self@, z)
    }

    /// The optimized interpreter: a stack-allocated 32-slot array and a
    /// depth counter, nothing heap-allocated.  Well-formedness — which the
    /// compiler proves for every program it emits — keeps every access
    /// inside the array; no run-time condition ever fails.
    fn eval(&self, z: Complex<S>) -> (r: Complex<S>) {
        let ghost s = self@;
        let n = self.len();
        let mut stack: [Complex<S>; 32] = [Complex::from_real(S::zero()); 32];
        let mut depth: usize = 0;
        let mut i: usize = 0;

        proof {
            assert(s.skip(0) =~= s);
            assert(stack_model(stack, 0) =~= Seq::<Complex<S>>::empty());
        }

        while i < n
            invariant
                s == self@,
                n == s.len(),
                i <= n,
                depth <= STACK_SIZE,
                fast_scan_ok(s.skip(i as int), depth as int),
                fast_final_depth(s.skip(i as int), depth as int) == 1,
                run_fast(s, z, Seq::empty()) == run_fast(
                    s.skip(i as int),
                    z,
                    stack_model(stack, depth as int),
                ),
            decreases n - i,
        {
            let ghost pre = stack_model(stack, depth as int);
            let instr = self.get(i);
            proof {
                assert(s.skip(i as int)[0] == s[i as int]);
                assert(s.skip(i as int).skip(1) =~= s.skip(i as int + 1));
                assert(fast_step_ok(s[i as int], depth as int));
                assert(fast_step(s[i as int], z, pre) is Some);
            }
            match instr {
                FastMathInstr::Z => {
                    stack_produce(&mut stack, &mut depth, z);
                },
                FastMathInstr::ZConj => {
                    stack_produce(&mut stack, &mut depth, z.conj());
                },
                FastMathInstr::Number(c) => {
                    stack_produce(&mut stack, &mut depth, *c);
                },
                FastMathInstr::ExpZ => {
                    stack_produce(&mut stack, &mut depth, z.exp());
                },
                FastMathInstr::LnZ => {
                    stack_produce(&mut stack, &mut depth, z.log());
                },
                FastMathInstr::SinZ => {
                    stack_produce(&mut stack, &mut depth, z.sin());
                },
                FastMathInstr::CosZ => {
                    stack_produce(&mut stack, &mut depth, z.cos());
                },
                FastMathInstr::TanZ => {
                    stack_produce(&mut stack, &mut depth, z.tan());
                },
                FastMathInstr::ArcsinZ => {
                    stack_produce(&mut stack, &mut depth, z.arcsin());
                },
                FastMathInstr::ArccosZ => {
                    stack_produce(&mut stack, &mut depth, z.arccos());
                },
                FastMathInstr::ArctanZ => {
                    stack_produce(&mut stack, &mut depth, z.arctan());
                },
                FastMathInstr::Conj => {
                    let c = stack_top(&stack, depth);
                    stack_replace_top(&mut stack, depth, c.conj());
                },
                FastMathInstr::Add(b) => {
                    let c = stack_top(&stack, depth);
                    stack_replace_top(&mut stack, depth, c.add(*b));
                },
                FastMathInstr::Sub(b) => {
                    let c = stack_top(&stack, depth);
                    stack_replace_top(&mut stack, depth, c.sub(*b));
                },
                FastMathInstr::Mul(b) => {
                    let c = stack_top(&stack, depth);
                    stack_replace_top(&mut stack, depth, c.mul(*b));
                },
                FastMathInstr::Div(b) => {
                    let c = stack_top(&stack, depth);
                    stack_replace_top(&mut stack, depth, c.div(*b));
                },
                FastMathInstr::Pow(b) => {
                    let c = stack_top(&stack, depth);
                    stack_replace_top(&mut stack, depth, c.pow(*b));
                },
                FastMathInstr::AddR(r) => {
                    let c = stack_top(&stack, depth);
                    stack_replace_top(&mut stack, depth, c.add_real(*r));
                },
                FastMathInstr::SubR(r) => {
                    let c = stack_top(&stack, depth);
                    stack_replace_top(&mut stack, depth, c.sub_real(*r));
                },
                FastMathInstr::MulR(r) => {
                    let c = stack_top(&stack, depth);
                    stack_replace_top(&mut stack, depth, c.mul_real(*r));
                },
                FastMathInstr::DivR(r) => {
                    let c = stack_top(&stack, depth);
                    stack_replace_top(&mut stack, depth, c.div_real(*r));
                },
                FastMathInstr::PowR(r) => {
                    let c = stack_top(&stack, depth);
                    stack_replace_top(&mut stack, depth, c.pow(*r));
                },
                FastMathInstr::AddZ => {
                    let c = stack_top(&stack, depth);
                    stack_replace_top(&mut stack, depth, c.add(z));
                },
                FastMathInstr::SubZ => {
                    let c = stack_top(&stack, depth);
                    stack_replace_top(&mut stack, depth, c.sub(z));
                },
                FastMathInstr::MulZ => {
                    let c = stack_top(&stack, depth);
                    stack_replace_top(&mut stack, depth, c.mul(z));
                },
                FastMathInstr::DivZ => {
                    let c = stack_top(&stack, depth);
                    stack_replace_top(&mut stack, depth, c.div(z));
                },
                FastMathInstr::PowZ => {
                    let c = stack_top(&stack, depth);
                    stack_replace_top(&mut stack, depth, c.pow(z));
                },
                FastMathInstr::Exp => {
                    let c = stack_top(&stack, depth);
                    stack_replace_top(&mut stack, depth, c.exp());
                },
                FastMathInstr::Ln => {
                    let c = stack_top(&stack, depth);
                    stack_replace_top(&mut stack, depth, c.log());
                },
                FastMathInstr::Log(b) => {
                    let c = stack_top(&stack, depth);
                    stack_replace_top(&mut stack, depth, c.log().div(*b));
                },
                FastMathInstr::LogR(r) => {
                    let c = stack_top(&stack, depth);
                    stack_replace_top(&mut stack, depth, c.log().div_real(*r));
                },
                FastMathInstr::LogZ => {
                    let c = stack_top(&stack, depth);
                    stack_replace_top(&mut stack, depth, c.log().div(z.log()));
                },
                FastMathInstr::Sin => {
                    let c = stack_top(&stack, depth);
                    stack_replace_top(&mut stack, depth, c.sin());
                },
                FastMathInstr::Cos => {
                    let c = stack_top(&stack, depth);
                    stack_replace_top(&mut stack, depth, c.cos());
                },
                FastMathInstr::Tan => {
                    let c = stack_top(&stack, depth);
                    stack_replace_top(&mut stack, depth, c.tan());
                },
                FastMathInstr::Arcsin => {
                    let c = stack_top(&stack, depth);
                    stack_replace_top(&mut stack, depth, c.arcsin());
                },
                FastMathInstr::Arccos => {
                    let c = stack_top(&stack, depth);
                    stack_replace_top(&mut stack, depth, c.arccos());
                },
                FastMathInstr::Arctan => {
                    let c = stack_top(&stack, depth);
                    stack_replace_top(&mut stack, depth, c.arctan());
                },
                FastMathInstr::AddS => {
                    let rhs = stack_top(&stack, depth);
                    let lhs = stack_second(&stack, depth);
                    stack_collapse(&mut stack, &mut depth, lhs.add(rhs));
                },
                FastMathInstr::SubS => {
                    let rhs = stack_top(&stack, depth);
                    let lhs = stack_second(&stack, depth);
                    stack_collapse(&mut stack, &mut depth, lhs.sub(rhs));
                },
                FastMathInstr::MulS => {
                    let rhs = stack_top(&stack, depth);
                    let lhs = stack_second(&stack, depth);
                    stack_collapse(&mut stack, &mut depth, lhs.mul(rhs));
                },
                FastMathInstr::DivS => {
                    let rhs = stack_top(&stack, depth);
                    let lhs = stack_second(&stack, depth);
                    stack_collapse(&mut stack, &mut depth, lhs.div(rhs));
                },
                FastMathInstr::PowS => {
                    let rhs = stack_top(&stack, depth);
                    let lhs = stack_second(&stack, depth);
                    stack_collapse(&mut stack, &mut depth, lhs.pow(rhs));
                },
                FastMathInstr::LogS => {
                    let rhs = stack_top(&stack, depth);
                    let lhs = stack_second(&stack, depth);
                    stack_collapse(&mut stack, &mut depth, lhs.log().div(rhs.log()));
                },
            }
            proof {
                assert(Some(stack_model(stack, depth as int)) == fast_step(s[i as int], z, pre));
                assert(depth as int == fast_step_depth(s[i as int], pre.len() as int));
            }
            i = i + 1;
        }

        proof {
            assert(s.skip(n as int) =~= Seq::<FastMathInstr<S>>::empty());
            assert(stack_model(stack, depth as int).last() == stack@[depth - 1]);
        }
        stack_top(&stack, depth)
    }
}

} // verus!

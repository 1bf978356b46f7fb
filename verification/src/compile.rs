//! The optimizing compiler: direct lowering, fusion and folding to a
//! fixpoint, and real-number specialization.

use vstd::prelude::*;

use crate::complex::{
    spec_carccos, spec_carcsin, spec_carctan, spec_cadd, spec_ccos, spec_cdiv, spec_cexp,
    spec_clog, spec_cmul, spec_conj, spec_cpow, spec_cpow_real, spec_csin, spec_csub,
    spec_ctan, spec_from_imag, spec_from_real, spec_is_real, Complex, Conj, Exp, InverseTrig,
    Log, Pow, Trig,
};
use crate::fast::{FastFunction, FastMathInstr};
use crate::function::{valid_ok, Function, MathInstruction, FUNCTION_SIZE};
use crate::scalar::Scalar;

verus! {

// ---------------------------------------------------------------------------
// Direct lowering.  Every raw instruction maps to its generic fast
// equivalent; the one special shape is a literal immediately followed by the
// imaginary marker, which fuses into a single imaginary literal here because
// the marker has no fast form of its own.  A marker that follows anything
// else marks nothing and is dropped.
// ---------------------------------------------------------------------------

/// The literal a raw `Number` carries.
pub open spec fn num_val<S>(i: MathInstruction<S>) -> S
    recommends
        i is Number,
{
    match i {
        MathInstruction::Number(x) => x,
        _ => arbitrary(),
    }
}

/// The immediate a fast `Number` carries.
pub open spec fn fast_num_val<S>(i: FastMathInstr<S>) -> Complex<S>
    recommends
        i is Number,
{
    match i {
        FastMathInstr::Number(c) => c,
        _ => arbitrary(),
    }
}

/// Whether every imaginary marker immediately follows a literal, which is
/// the only place where it has a compiled form.
pub open spec fn imag_markers_ok<S>(s: Seq<MathInstruction<S>>) -> bool
    decreases s.len(),
{
    if s.len() == 0 {
        true
    } else if s[0] is Imag {
        false
    } else if s[0] is Number && s.len() >= 2 && s[1] is Imag {
        imag_markers_ok(s.skip(2))
    } else {
        imag_markers_ok(s.skip(1))
    }
}

/// The one-to-one part of the lowering.
pub open spec fn lower_map<S: Scalar>(i: MathInstruction<S>) -> FastMathInstr<S>
    recommends
        !(i is Imag),
{
    match i {
        MathInstruction::Z => FastMathInstr::Z,
        MathInstruction::ZConj => FastMathInstr::ZConj,
        MathInstruction::Number(x) => FastMathInstr::Number(spec_from_real(x)),
        MathInstruction::Conj => FastMathInstr::Conj,
        MathInstruction::Imag => arbitrary(),
        MathInstruction::Pi => FastMathInstr::Number(spec_from_real(S::spec_pi())),
        MathInstruction::E => FastMathInstr::Number(spec_from_real(S::spec_e())),
        MathInstruction::Add => FastMathInstr::AddS,
        MathInstruction::Sub => FastMathInstr::SubS,
        MathInstruction::Mul => FastMathInstr::MulS,
        MathInstruction::Div => FastMathInstr::DivS,
        MathInstruction::Pow => FastMathInstr::PowS,
        MathInstruction::Sqrt => FastMathInstr::PowR(S::spec_half()),
        MathInstruction::Exp => FastMathInstr::Exp,
        MathInstruction::Ln => FastMathInstr::Ln,
        MathInstruction::Log => FastMathInstr::LogS,
        MathInstruction::Sin => FastMathInstr::Sin,
        MathInstruction::Cos => FastMathInstr::Cos,
        MathInstruction::Tan => FastMathInstr::Tan,
        MathInstruction::Arcsin => FastMathInstr::Arcsin,
        MathInstruction::Arccos => FastMathInstr::Arccos,
        MathInstruction::Arctan => FastMathInstr::Arctan,
    }
}

/// The whole lowering stage.
pub open spec fn spec_lower<S: Scalar>(s: Seq<MathInstruction<S>>) -> Seq<FastMathInstr<S>>
    decreases s.len(),
{
    if s.len() == 0 {
        Seq::empty()
    } else if s[0] is Imag {
        spec_lower(s.skip(1))
    } else if s[0] is Number && s.len() >= 2 && s[1] is Imag {
        seq![FastMathInstr::Number(spec_from_imag(num_val(s[0])))] + spec_lower(s.skip(2))
    } else {
        seq![lower_map(s[0])] + spec_lower(s.skip(1))
    }
}

// ---------------------------------------------------------------------------
// Operand fusion.  A push of the live input or of a literal that feeds the
// next instruction directly is folded into that instruction, which saves a
// push and a pop.
// ---------------------------------------------------------------------------

/// The instruction that fuses a push of the live input with `i`, if any.
pub open spec fn z_fused<S>(i: FastMathInstr<S>) -> Option<FastMathInstr<S>> {
    match i {
        FastMathInstr::AddS => Some(FastMathInstr::AddZ),
        FastMathInstr::SubS => Some(FastMathInstr::SubZ),
        FastMathInstr::MulS => Some(FastMathInstr::MulZ),
        FastMathInstr::DivS => Some(FastMathInstr::DivZ),
        FastMathInstr::PowS => Some(FastMathInstr::PowZ),
        FastMathInstr::Exp => Some(FastMathInstr::ExpZ),
        FastMathInstr::Ln => Some(FastMathInstr::LnZ),
        FastMathInstr::LogS => Some(FastMathInstr::LogZ),
        FastMathInstr::Sin => Some(FastMathInstr::SinZ),
        FastMathInstr::Cos => Some(FastMathInstr::CosZ),
        FastMathInstr::Tan => Some(FastMathInstr::TanZ),
        FastMathInstr::Arcsin => Some(FastMathInstr::ArcsinZ),
        FastMathInstr::Arccos => Some(FastMathInstr::ArccosZ),
        FastMathInstr::Arctan => Some(FastMathInstr::ArctanZ),
        _ => None,
    }
}

/// The instruction that fuses a push of the literal `c` with `i`, if any;
/// fusing with the explicit-base logarithm takes the base's logarithm now.
pub open spec fn num_fused<S: Scalar>(c: Complex<S>, i: FastMathInstr<S>) -> Option<
    FastMathInstr<S>,
> {
    match i {
        FastMathInstr::AddS => Some(FastMathInstr::Add(c)),
        FastMathInstr::SubS => Some(FastMathInstr::Sub(c)),
        FastMathInstr::MulS => Some(FastMathInstr::Mul(c)),
        FastMathInstr::DivS => Some(FastMathInstr::Div(c)),
        FastMathInstr::PowS => Some(FastMathInstr::Pow(c)),
        FastMathInstr::LogS => Some(FastMathInstr::Log(spec_clog(c))),
        _ => None,
    }
}

/// One left-to-right fusion pass.
pub open spec fn spec_fuse<S: Scalar>(s: Seq<FastMathInstr<S>>) -> Seq<FastMathInstr<S>>
    decreases s.len(),
{
    if s.len() == 0 {
        Seq::empty()
    } else if s.len() >= 2 && s[0] is Z && z_fused(s[1]) is Some {
        seq![z_fused(s[1]).unwrap()] + spec_fuse(s.skip(2))
    } else if s.len() >= 2 && s[0] is Number && num_fused(fast_num_val(s[0]), s[1]) is Some {
        seq![num_fused(fast_num_val(s[0]), s[1]).unwrap()] + spec_fuse(s.skip(2))
    } else {
        seq![s[0]] + spec_fuse(s.skip(1))
    }
}

// ---------------------------------------------------------------------------
// Constant folding.  A literal feeding an instruction whose other operand is
// already immediate is computed now and replaced by the resulting literal.
// ---------------------------------------------------------------------------

/// The literal that replaces a push of `c` followed by `i`, if `i` needs no
/// other stack operand.
pub open spec fn folded<S: Scalar>(c: Complex<S>, i: FastMathInstr<S>) -> Option<Complex<S>> {
    match i {
        FastMathInstr::Conj => Some(spec_conj(c)),
        FastMathInstr::Add(b) => Some(spec_cadd(c, b)),
        FastMathInstr::Sub(b) => Some(spec_csub(c, b)),
        FastMathInstr::Mul(b) => Some(spec_cmul(c, b)),
        FastMathInstr::Div(b) => Some(spec_cdiv(c, b)),
        FastMathInstr::Pow(b) => Some(spec_cpow(c, b)),
        FastMathInstr::Exp => Some(spec_cexp(c)),
        FastMathInstr::Ln => Some(spec_clog(c)),
        FastMathInstr::Log(b) => Some(spec_cdiv(spec_clog(c), b)),
        FastMathInstr::Sin => Some(spec_csin(c)),
        FastMathInstr::Cos => Some(spec_ccos(c)),
        FastMathInstr::Tan => Some(spec_ctan(c)),
        FastMathInstr::Arcsin => Some(spec_carcsin(c)),
        FastMathInstr::Arccos => Some(spec_carccos(c)),
        FastMathInstr::Arctan => Some(spec_carctan(c)),
        _ => None,
    }
}

/// One left-to-right folding pass.
pub open spec fn spec_fold<S: Scalar>(s: Seq<FastMathInstr<S>>) -> Seq<FastMathInstr<S>>
    decreases s.len(),
{
    if s.len() == 0 {
        Seq::empty()
    } else if s.len() >= 2 && s[0] is Number && folded(fast_num_val(s[0]), s[1]) is Some {
        seq![FastMathInstr::Number(folded(fast_num_val(s[0]), s[1]).unwrap())] + spec_fold(
            s.skip(2),
        )
    } else {
        seq![s[0]] + spec_fold(s.skip(1))
    }
}

/// One round of the fixpoint body: fuse, then fold.
pub open spec fn spec_round<S: Scalar>(s: Seq<FastMathInstr<S>>) -> Seq<FastMathInstr<S>> {
    spec_fold(spec_fuse(s))
}

/// The fixpoint of the two rewriting passes: repeat while a round still
/// shortens the program.
pub open spec fn spec_fixpoint<S: Scalar>(s: Seq<FastMathInstr<S>>) -> Seq<FastMathInstr<S>>
    decreases s.len(),
{
    let s2 = spec_round(s);
    if s2.len() < s.len() {
        spec_fixpoint(s2)
    } else {
        s2
    }
}

// ---------------------------------------------------------------------------
// Real-number specialization.  An immediate operand with a zero imaginary
// component switches to the single-component form of the same operator.
// This runs once, after the fixpoint: it never changes the length.
// ---------------------------------------------------------------------------

pub open spec fn specialize_one<S: Scalar>(i: FastMathInstr<S>) -> FastMathInstr<S> {
    match i {
        FastMathInstr::Add(c) => if spec_is_real(c) {
            FastMathInstr::AddR(c.real)
        } else {
            i
        },
        FastMathInstr::Sub(c) => if spec_is_real(c) {
            FastMathInstr::SubR(c.real)
        } else {
            i
        },
        FastMathInstr::Mul(c) => if spec_is_real(c) {
            FastMathInstr::MulR(c.real)
        } else {
            i
        },
        FastMathInstr::Div(c) => if spec_is_real(c) {
            FastMathInstr::DivR(c.real)
        } else {
            i
        },
        FastMathInstr::Pow(c) => if spec_is_real(c) {
            FastMathInstr::PowR(c.real)
        } else {
            i
        },
        FastMathInstr::Log(c) => if spec_is_real(c) {
            FastMathInstr::LogR(c.real)
        } else {
            i
        },
        _ => i,
    }
}

pub open spec fn spec_specialize<S: Scalar>(s: Seq<FastMathInstr<S>>) -> Seq<FastMathInstr<S>>
    decreases s.len(),
{
    if s.len() == 0 {
        Seq::empty()
    } else {
        seq![specialize_one(s[0])] + spec_specialize(s.skip(1))
    }
}

/// The whole compiler: lower, rewrite to a fixpoint, specialize.
pub open spec fn spec_compile<S: Scalar>(s: Seq<MathInstruction<S>>) -> Seq<FastMathInstr<S>> {
    spec_specialize(spec_fixpoint(spec_lower(s)))
}

// ---------------------------------------------------------------------------
// Length bounds: no pass ever lengthens a program.
// ---------------------------------------------------------------------------

proof fn lemma_lower_len<S: Scalar>(s: Seq<MathInstruction<S>>)
    ensures
        spec_lower(s).len() <= s.len(),
    decreases s.len(),
{
    if s.len() != 0 {
        if s[0] is Imag {
            lemma_lower_len(s.skip(1));
        } else if s[0] is Number && s.len() >= 2 && s[1] is Imag {
            lemma_lower_len(s.skip(2));
        } else {
            lemma_lower_len(s.skip(1));
        }
    }
}

proof fn lemma_fuse_len<S: Scalar>(s: Seq<FastMathInstr<S>>)
    ensures
        spec_fuse(s).len() <= s.len(),
    decreases s.len(),
{
    if s.len() != 0 {
        if s.len() >= 2 && s[0] is Z && z_fused(s[1]) is Some {
            lemma_fuse_len(s.skip(2));
        } else if s.len() >= 2 && s[0] is Number && num_fused(fast_num_val(s[0]), s[1]) is Some {
            lemma_fuse_len(s.skip(2));
        } else {
            lemma_fuse_len(s.skip(1));
        }
    }
}

proof fn lemma_fold_len<S: Scalar>(s: Seq<FastMathInstr<S>>)
    ensures
        spec_fold(s).len() <= s.len(),
    decreases s.len(),
{
    if s.len() != 0 {
        if s.len() >= 2 && s[0] is Number && folded(fast_num_val(s[0]), s[1]) is Some {
            lemma_fold_len(s.skip(2));
        } else {
            lemma_fold_len(s.skip(1));
        }
    }
}

proof fn lemma_fixpoint_len<S: Scalar>(s: Seq<FastMathInstr<S>>)
    ensures
        spec_fixpoint(s).len() <= s.len(),
    decreases s.len(),
{
    lemma_fuse_len(s);
    lemma_fold_len(spec_fuse(s));
    let s2 = spec_round(s);
    if s2.len() < s.len() {
        lemma_fixpoint_len(s2);
    }
}

proof fn lemma_specialize_len<S: Scalar>(s: Seq<FastMathInstr<S>>)
    ensures
        spec_specialize(s).len() == s.len(),
    decreases s.len(),
{
    if s.len() != 0 {
        lemma_specialize_len(s.skip(1));
    }
}

// ---------------------------------------------------------------------------
// The executable passes.
// ---------------------------------------------------------------------------

fn lower_exec<S: Scalar>(f: &Function<S>) -> (out: Vec<FastMathInstr<S>>)
    ensures
        out@ == spec_lower(f@),
        out@.len() <= f@.len(),
{
    let ghost s = f@;
    let n = f.len();
    let mut out: Vec<FastMathInstr<S>> = Vec::new();
    let mut i: usize = 0;

    proof {
        assert(s.skip(0) =~= s);
        lemma_lower_len(s);
    }

    while i < n
        invariant
            s == f@,
            n == s.len(),
            i <= n,
            out@.len() <= i,
            spec_lower(s) == out@ + spec_lower(s.skip(i as int)),
        decreases n - i,
    {
        proof {
            assert(s.skip(i as int)[0] == s[i as int]);
            assert(s.skip(i as int).skip(1) =~= s.skip(i as int + 1));
            if i + 1 < n {
                assert(s.skip(i as int)[1] == s[i as int + 1]);
                assert(s.skip(i as int).skip(2) =~= s.skip(i as int + 2));
            }
        }
        let instr = f.get(i);
        match instr {
            MathInstruction::Number(x) => {
                let fuse_imag = if i + 1 < n {
                    matches!(f.get(i + 1), MathInstruction::Imag)
                } else {
                    false
                };
                if fuse_imag {
                    out.push(FastMathInstr::Number(Complex::from_imag(*x)));
                    proof {
                        assert(out@ =~= out@.drop_last() + seq![out@.last()]);
                    }
                    i = i + 2;
                } else {
                    out.push(FastMathInstr::Number(Complex::from_real(*x)));
                    proof {
                        assert(out@ =~= out@.drop_last() + seq![out@.last()]);
                    }
                    i = i + 1;
                }
            },
            MathInstruction::Imag => {
                i = i + 1;
            },
            MathInstruction::Z => {
                out.push(FastMathInstr::Z);
                proof {
                    assert(out@ =~= out@.drop_last() + seq![out@.last()]);
                }
                i = i + 1;
            },
            MathInstruction::ZConj => {
                out.push(FastMathInstr::ZConj);
                proof {
                    assert(out@ =~= out@.drop_last() + seq![out@.last()]);
                }
                i = i + 1;
            },
            MathInstruction::Conj => {
                out.push(FastMathInstr::Conj);
                proof {
                    assert(out@ =~= out@.drop_last() + seq![out@.last()]);
                }
                i = i + 1;
            },
            MathInstruction::Pi => {
                out.push(FastMathInstr::Number(Complex::from_real(S::pi())));
                proof {
                    assert(out@ =~= out@.drop_last() + seq![out@.last()]);
                }
                i = i + 1;
            },
            MathInstruction::E => {
                out.push(FastMathInstr::Number(Complex::from_real(S::e())));
                proof {
                    assert(out@ =~= out@.drop_last() + seq![out@.last()]);
                }
                i = i + 1;
            },
            MathInstruction::Add => {
                out.push(FastMathInstr::AddS);
                proof {
                    assert(out@ =~= out@.drop_last() + seq![out@.last()]);
                }
                i = i + 1;
            },
            MathInstruction::Sub => {
                out.push(FastMathInstr::SubS);
                proof {
                    assert(out@ =~= out@.drop_last() + seq![out@.last()]);
                }
                i = i + 1;
            },
            MathInstruction::Mul => {
                out.push(FastMathInstr::MulS);
                proof {
                    assert(out@ =~= out@.drop_last() + seq![out@.last()]);
                }
                i = i + 1;
            },
            MathInstruction::Div => {
                out.push(FastMathInstr::DivS);
                proof {
                    assert(out@ =~= out@.drop_last() + seq![out@.last()]);
                }
                i = i + 1;
            },
            MathInstruction::Pow => {
                out.push(FastMathInstr::PowS);
                proof {
                    assert(out@ =~= out@.drop_last() + seq![out@.last()]);
                }
                i = i + 1;
            },
            MathInstruction::Sqrt => {
                out.push(FastMathInstr::PowR(S::half()));
                proof {
                    assert(out@ =~= out@.drop_last() + seq![out@.last()]);
                }
                i = i + 1;
            },
            MathInstruction::Exp => {
                out.push(FastMathInstr::Exp);
                proof {
                    assert(out@ =~= out@.drop_last() + seq![out@.last()]);
                }
                i = i + 1;
            },
            MathInstruction::Ln => {
                out.push(FastMathInstr::Ln);
                proof {
                    assert(out@ =~= out@.drop_last() + seq![out@.last()]);
                }
                i = i + 1;
            },
            MathInstruction::Log => {
                out.push(FastMathInstr::LogS);
                proof {
                    assert(out@ =~= out@.drop_last() + seq![out@.last()]);
                }
                i = i + 1;
            },
            MathInstruction::Sin => {
                out.push(FastMathInstr::Sin);
                proof {
                    assert(out@ =~= out@.drop_last() + seq![out@.last()]);
                }
                i = i + 1;
            },
            MathInstruction::Cos => {
                out.push(FastMathInstr::Cos);
                proof {
                    assert(out@ =~= out@.drop_last() + seq![out@.last()]);
                }
                i = i + 1;
            },
            MathInstruction::Tan => {
                out.push(FastMathInstr::Tan);
                proof {
                    assert(out@ =~= out@.drop_last() + seq![out@.last()]);
                }
                i = i + 1;
            },
            MathInstruction::Arcsin => {
                out.push(FastMathInstr::Arcsin);
                proof {
                    assert(out@ =~= out@.drop_last() + seq![out@.last()]);
                }
                i = i + 1;
            },
            MathInstruction::Arccos => {
                out.push(FastMathInstr::Arccos);
                proof {
                    assert(out@ =~= out@.drop_last() + seq![out@.last()]);
                }
                i = i + 1;
            },
            MathInstruction::Arctan => {
                out.push(FastMathInstr::Arctan);
                proof {
                    assert(out@ =~= out@.drop_last() + seq![out@.last()]);
                }
                i = i + 1;
            },
        }
    }

    proof {
        assert(s.skip(n as int) =~= Seq::<MathInstruction<S>>::empty());
        assert(out@ =~= out@ + spec_lower(s.skip(n as int)));
    }
    out
}

fn z_fuse_exec<S: Scalar>(i: &FastMathInstr<S>) -> (r: Option<FastMathInstr<S>>)
    ensures
        r == z_fused(*i),
{
    match i {
        FastMathInstr::AddS => Some(FastMathInstr::AddZ),
        FastMathInstr::SubS => Some(FastMathInstr::SubZ),
        FastMathInstr::MulS => Some(FastMathInstr::MulZ),
        FastMathInstr::DivS => Some(FastMathInstr::DivZ),
        FastMathInstr::PowS => Some(FastMathInstr::PowZ),
        FastMathInstr::Exp => Some(FastMathInstr::ExpZ),
        FastMathInstr::Ln => Some(FastMathInstr::LnZ),
        FastMathInstr::LogS => Some(FastMathInstr::LogZ),
        FastMathInstr::Sin => Some(FastMathInstr::SinZ),
        FastMathInstr::Cos => Some(FastMathInstr::CosZ),
        FastMathInstr::Tan => Some(FastMathInstr::TanZ),
        FastMathInstr::Arcsin => Some(FastMathInstr::ArcsinZ),
        FastMathInstr::Arccos => Some(FastMathInstr::ArccosZ),
        FastMathInstr::Arctan => Some(FastMathInstr::ArctanZ),
        _ => None,
    }
}

fn num_fuse_exec<S: Scalar>(c: Complex<S>, i: &FastMathInstr<S>) -> (r: Option<FastMathInstr<S>>)
    ensures
        r == num_fused(c, *i),
{
    match i {
        FastMathInstr::AddS => Some(FastMathInstr::Add(c)),
        FastMathInstr::SubS => Some(FastMathInstr::Sub(c)),
        FastMathInstr::MulS => Some(FastMathInstr::Mul(c)),
        FastMathInstr::DivS => Some(FastMathInstr::Div(c)),
        FastMathInstr::PowS => Some(FastMathInstr::Pow(c)),
        FastMathInstr::LogS => Some(FastMathInstr::Log(c.log())),
        _ => None,
    }
}

fn fuse_exec<S: Scalar>(input: &Vec<FastMathInstr<S>>) -> (out: Vec<FastMathInstr<S>>)
    ensures
        out@ == spec_fuse(input@),
        out@.len() <= input@.len(),
{
    let ghost s = input@;
    let n = input.len();
    let mut out: Vec<FastMathInstr<S>> = Vec::new();
    let mut i: usize = 0;

    proof {
        assert(s.skip(0) =~= s);
        lemma_fuse_len(s);
    }

    while i < n
        invariant
            s == input@,
            n == s.len(),
            i <= n,
            out@.len() <= i,
            spec_fuse(s) == out@ + spec_fuse(s.skip(i as int)),
        decreases n - i,
    {
        proof {
            assert(s.skip(i as int)[0] == s[i as int]);
            assert(s.skip(i as int).skip(1) =~= s.skip(i as int + 1));
            if i + 1 < n {
                assert(s.skip(i as int)[1] == s[i as int + 1]);
                assert(s.skip(i as int).skip(2) =~= s.skip(i as int + 2));
            }
        }
        let instr = &input[i];
        let mut fused: Option<FastMathInstr<S>> = None;
        if i + 1 < n {
            match instr {
                FastMathInstr::Z => {
                    fused = z_fuse_exec(&input[i + 1]);
                },
                FastMathInstr::Number(c) => {
                    fused = num_fuse_exec(*c, &input[i + 1]);
                },
                _ => {},
            }
        }
        match fused {
            Some(fi) => {
                out.push(fi);
                proof {
                    assert(out@ =~= out@.drop_last() + seq![out@.last()]);
                }
                i = i + 2;
            },
            None => {
                out.push(*instr);
                proof {
                    assert(out@ =~= out@.drop_last() + seq![out@.last()]);
                }
                i = i + 1;
            },
        }
    }

    proof {
        assert(s.skip(n as int) =~= Seq::<FastMathInstr<S>>::empty());
        assert(out@ =~= out@ + spec_fuse(s.skip(n as int)));
    }
    out
}

fn fold_one_exec<S: Scalar>(c: Complex<S>, i: &FastMathInstr<S>) -> (r: Option<Complex<S>>)
    ensures
        r == folded(c, *i),
{
    match i {
        FastMathInstr::Conj => Some(c.conj()),
        FastMathInstr::Add(b) => Some(c.add(*b)),
        FastMathInstr::Sub(b) => Some(c.sub(*b)),
        FastMathInstr::Mul(b) => Some(c.mul(*b)),
        FastMathInstr::Div(b) => Some(c.div(*b)),
        FastMathInstr::Pow(b) => Some(c.pow(*b)),
        FastMathInstr::Exp => Some(c.exp()),
        FastMathInstr::Ln => Some(c.log()),
        FastMathInstr::Log(b) => Some(c.log().div(*b)),
        FastMathInstr::Sin => Some(c.sin()),
        FastMathInstr::Cos => Some(c.cos()),
        FastMathInstr::Tan => Some(c.tan()),
        FastMathInstr::Arcsin => Some(c.arcsin()),
        FastMathInstr::Arccos => Some(c.arccos()),
        FastMathInstr::Arctan => Some(c.arctan()),
        _ => None,
    }
}

fn fold_exec<S: Scalar>(input: &Vec<FastMathInstr<S>>) -> (out: Vec<FastMathInstr<S>>)
    ensures
        out@ == spec_fold(input@),
        out@.len() <= input@.len(),
{
    let ghost s = input@;
    let n = input.len();
    let mut out: Vec<FastMathInstr<S>> = Vec::new();
    let mut i: usize = 0;

    proof {
        assert(s.skip(0) =~= s);
        lemma_fold_len(s);
    }

    while i < n
        invariant
            s == input@,
            n == s.len(),
            i <= n,
            out@.len() <= i,
            spec_fold(s) == out@ + spec_fold(s.skip(i as int)),
        decreases n - i,
    {
        proof {
            assert(s.skip(i as int)[0] == s[i as int]);
            assert(s.skip(i as int).skip(1) =~= s.skip(i as int + 1));
            if i + 1 < n {
                assert(s.skip(i as int)[1] == s[i as int + 1]);
                assert(s.skip(i as int).skip(2) =~= s.skip(i as int + 2));
            }
        }
        let instr = &input[i];
        let mut replaced: Option<Complex<S>> = None;
        if i + 1 < n {
            match instr {
                FastMathInstr::Number(c) => {
                    replaced = fold_one_exec(*c, &input[i + 1]);
                },
                _ => {},
            }
        }
        match replaced {
            Some(c2) => {
                out.push(FastMathInstr::Number(c2));
                proof {
                    assert(out@ =~= out@.drop_last() + seq![out@.last()]);
                }
                i = i + 2;
            },
            None => {
                out.push(*instr);
                proof {
                    assert(out@ =~= out@.drop_last() + seq![out@.last()]);
                }
                i = i + 1;
            },
        }
    }

    proof {
        assert(s.skip(n as int) =~= Seq::<FastMathInstr<S>>::empty());
        assert(out@ =~= out@ + spec_fold(s.skip(n as int)));
    }
    out
}

fn specialize_one_exec<S: Scalar>(i: &FastMathInstr<S>) -> (r: FastMathInstr<S>)
    ensures
        r == specialize_one(*i),
{
    match i {
        FastMathInstr::Add(c) => if c.is_real() {
            FastMathInstr::AddR(c.real)
        } else {
            *i
        },
        FastMathInstr::Sub(c) => if c.is_real() {
            FastMathInstr::SubR(c.real)
        } else {
            *i
        },
        FastMathInstr::Mul(c) => if c.is_real() {
            FastMathInstr::MulR(c.real)
        } else {
            *i
        },
        FastMathInstr::Div(c) => if c.is_real() {
            FastMathInstr::DivR(c.real)
        } else {
            *i
        },
        FastMathInstr::Pow(c) => if c.is_real() {
            FastMathInstr::PowR(c.real)
        } else {
            *i
        },
        FastMathInstr::Log(c) => if c.is_real() {
            FastMathInstr::LogR(c.real)
        } else {
            *i
        },
        _ => *i,
    }
}

fn specialize_exec<S: Scalar>(input: &Vec<FastMathInstr<S>>) -> (out: Vec<FastMathInstr<S>>)
    ensures
        out@ == spec_specialize(input@),
        out@.len() == input@.len(),
{
    let ghost s = input@;
    let n = input.len();
    let mut out: Vec<FastMathInstr<S>> = Vec::new();
    let mut i: usize = 0;

    proof {
        assert(s.skip(0) =~= s);
        lemma_specialize_len(s);
    }

    while i < n
        invariant
            s == input@,
            n == s.len(),
            i <= n,
            out@.len() == i,
            spec_specialize(s) == out@ + spec_specialize(s.skip(i as int)),
        decreases n - i,
    {
        proof {
            assert(s.skip(i as int)[0] == s[i as int]);
            assert(s.skip(i as int).skip(1) =~= s.skip(i as int + 1));
        }
        out.push(specialize_one_exec(&input[i]));
        proof {
            assert(out@ =~= out@.drop_last() + seq![out@.last()]);
        }
        i = i + 1;
    }

    proof {
        assert(s.skip(n as int) =~= Seq::<FastMathInstr<S>>::empty());
        assert(out@ =~= out@ + spec_specialize(s.skip(n as int)));
    }
    out
}

/// Compiles a raw program into its optimized form: direct lowering, then
/// fusion and folding repeated until a whole round shortens nothing, then
/// one specialization sweep.  A pure function of the program: compiling the
/// same program twice gives identical output.
pub fn compile<S: Scalar>(f: &Function<S>) -> (r: FastFunction<S>)
    requires
        f@.len() <= FUNCTION_SIZE,
    ensures
        r@ == spec_compile(f@),
        valid_ok(f@) && imag_markers_ok(f@) ==> crate::fast::fast_wf(r@),
{
    proof {
        if valid_ok(f@) && imag_markers_ok(f@) {
            crate::laws::lemma_validator_soundness(f@);
        }
    }
    let mut cur = lower_exec(f);
    let ghost g0 = cur@;

    let mut prev_len: usize = cur.len() + 1;

    while cur.len() < prev_len
        invariant
            cur@.len() <= FUNCTION_SIZE,
            prev_len <= FUNCTION_SIZE + 1,
            cur@.len() < prev_len ==> spec_fixpoint(g0) == spec_fixpoint(cur@),
            cur@.len() >= prev_len ==> spec_fixpoint(g0) == cur@,
        decreases prev_len,
    {
        let ghost x = cur@;
        prev_len = cur.len();
        let fused = fuse_exec(&cur);
        cur = fold_exec(&fused);
        proof {
            assert(cur@ == spec_round(x));
        }
    }

    let specialized = specialize_exec(&cur);
    proof {
        lemma_specialize_len(cur@);
    }
    FastFunction::from_vec(specialized)
}

/// Whether every imaginary marker of the program follows a literal — the
/// shape `compile` gives a meaning to.  The editor can test this before
/// committing an expression.
pub fn imag_markers_check<S: Scalar>(f: &Function<S>) -> (r: bool)
    ensures
        r == imag_markers_ok(f@),
{
    let ghost s = f@;
    let n = f.len();
    let mut i: usize = 0;

    proof {
        assert(s.skip(0) =~= s);
    }

    while i < n
        invariant
            s == f@,
            n == s.len(),
            i <= n,
            imag_markers_ok(s) == imag_markers_ok(s.skip(i as int)),
        decreases n - i,
    {
        proof {
            assert(s.skip(i as int)[0] == s[i as int]);
            assert(s.skip(i as int).skip(1) =~= s.skip(i as int + 1));
            if i + 1 < n {
                assert(s.skip(i as int)[1] == s[i as int + 1]);
                assert(s.skip(i as int).skip(2) =~= s.skip(i as int + 2));
            }
        }
        let instr = f.get(i);
        match instr {
            MathInstruction::Imag => {
                return false;
            },
            MathInstruction::Number(_) => {
                let marked = if i + 1 < n {
                    matches!(f.get(i + 1), MathInstruction::Imag)
                } else {
                    false
                };
                if marked {
                    i = i + 2;
                } else {
                    i = i + 1;
                }
            },
            _ => {
                i = i + 1;
            },
        }
    }

    proof {
        assert(s.skip(n as int) =~= Seq::<MathInstruction<S>>::empty());
    }
    true
}

} // verus!

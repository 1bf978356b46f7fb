//! The laws of the library: the passes preserve meaning, compiled
//! programs stay inside the fixed evaluation stack, and the field laws
//! lift from the scalar model to the complex level.

use vstd::prelude::*;

use crate::compile::{
    fast_num_val, folded, imag_markers_ok, lower_map, num_fused, num_val, spec_compile,
    spec_fixpoint, spec_fold, spec_fuse, spec_lower, spec_round, spec_specialize, specialize_one,
    z_fused,
};
use crate::complex::{
    spec_cadd, spec_cadd_real, spec_cdiv, spec_cdiv_real, spec_cmul, spec_cmul_real, spec_conj,
    spec_cpow, spec_cpow_real, spec_csub, spec_csub_real, spec_from_imag, spec_from_real, spec_sq_mod,
    spec_is_real, Complex,
};
use crate::eval::{
    fast_step, lemma_run_fast_concat, raw_step, raw_unary_apply, run_fast, run_raw,
    spec_eval_fast, spec_eval_raw,
};
use crate::fast::{
    fast_final_depth, fast_scan_ok, fast_step_depth, fast_step_ok, fast_wf, FastMathInstr,
};
use crate::function::{
    final_depth, scan_bad_index, step_depth, step_ok, valid_ok, MathInstruction,
};
use crate::scalar::Scalar;

verus! {

// ---------------------------------------------------------------------------
// Hypotheses on the scalar model.
//
// Nothing is assumed of the model by default.  The laws below that need an
// algebraic fact state it as an explicit hypothesis; an IEEE model satisfies
// each of them everywhere except on its edge cases (signed zeros, infinities
// and NaNs), which is exactly the "up to floating-point edge cases" caveat
// of the informal claims.
// ---------------------------------------------------------------------------

/// Operating against a purely real immediate with single-component
/// arithmetic agrees with the full complex operation.
pub open spec fn real_ops_agree<S: Scalar>() -> bool {
    &&& forall|a: Complex<S>, b: Complex<S>|
        spec_is_real(b) ==> #[trigger] spec_cadd(a, b) == spec_cadd_real(a, b.real)
    &&& forall|a: Complex<S>, b: Complex<S>|
        spec_is_real(b) ==> #[trigger] spec_csub(a, b) == spec_csub_real(a, b.real)
    &&& forall|a: Complex<S>, b: Complex<S>|
        spec_is_real(b) ==> #[trigger] spec_cmul(a, b) == spec_cmul_real(a, b.real)
    &&& forall|a: Complex<S>, b: Complex<S>|
        spec_is_real(b) ==> #[trigger] spec_cdiv(a, b) == spec_cdiv_real(a, b.real)
    &&& forall|a: Complex<S>, b: Complex<S>|
        spec_is_real(b) ==> #[trigger] spec_cpow(a, b) == spec_cpow_real(a, b.real)
}

/// Multiplying a real literal by the imaginary unit yields the imaginary
/// literal the lowering writes directly.
pub open spec fn imag_literal_agrees<S: Scalar>() -> bool {
    forall|x: S|
        #[trigger] spec_cmul(spec_from_real(x), spec_from_imag(S::spec_one())) == spec_from_imag(
            x,
        )
}

pub open spec fn contains_imag<S>(s: Seq<MathInstruction<S>>) -> bool {
    exists|k: int| 0 <= k < s.len() && s[k] is Imag
}

// ---------------------------------------------------------------------------
// Small run lemmas.
// ---------------------------------------------------------------------------

proof fn lemma_run_fast_single<S: Scalar>(i: FastMathInstr<S>, z: Complex<S>, st: Seq<Complex<S>>)
    ensures
        run_fast(seq![i], z, st) == fast_step(i, z, st),
{
    let s = seq![i];
    assert(s.len() == 1);
    assert(s[0] == i);
    assert(s.skip(1) =~= Seq::<FastMathInstr<S>>::empty());
    match fast_step(i, z, st) {
        None => {
            assert(run_fast(s, z, st) is None);
        },
        Some(st2) => {
            assert(run_fast(s.skip(1), z, st2) == Some(st2));
            assert(run_fast(s, z, st) == Some(st2));
        },
    }
}

/// A discipline-respecting fast program runs without underflow and ends at
/// its computed depth, whatever the values on the stack.
pub proof fn lemma_fast_scan_runs<S: Scalar>(
    s: Seq<FastMathInstr<S>>,
    z: Complex<S>,
    st: Seq<Complex<S>>,
)
    requires
        fast_scan_ok(s, st.len() as int),
    ensures
        run_fast(s, z, st) is Some,
        run_fast(s, z, st).unwrap().len() == fast_final_depth(s, st.len() as int),
    decreases s.len(),
{
    if s.len() > 0 {
        let st2 = fast_step(s[0], z, st).unwrap();
        assert(st2.len() as int == fast_step_depth(s[0], st.len() as int));
        lemma_fast_scan_runs(s.skip(1), z, st2);
    }
}

/// A program the validator accepts runs without underflow and ends at its
/// computed depth.
pub proof fn lemma_raw_scan_runs<S: Scalar>(
    s: Seq<MathInstruction<S>>,
    z: Complex<S>,
    st: Seq<Complex<S>>,
)
    requires
        scan_bad_index(s, st.len() as int) is None,
    ensures
        run_raw(s, z, st) is Some,
        run_raw(s, z, st).unwrap().len() == final_depth(s, st.len() as int),
    decreases s.len(),
{
    if s.len() > 0 {
        let st2 = raw_step(s[0], z, st).unwrap();
        assert(st2.len() as int == step_depth(s[0], st.len() as int));
        lemma_raw_scan_runs(s.skip(1), z, st2);
    }
}

// ---------------------------------------------------------------------------
// One fused instruction does the work of its pair.
// ---------------------------------------------------------------------------

proof fn lemma_z_fuse_step<S: Scalar>(j: FastMathInstr<S>, z: Complex<S>, st: Seq<Complex<S>>)
    requires
        z_fused(j) is Some,
    ensures
        fast_step(z_fused(j).unwrap(), z, st) == (match fast_step(FastMathInstr::Z, z, st) {
            None => None,
            Some(st1) => fast_step(j, z, st1),
        }),
{
    let st1 = st.push(z);
    assert(st1.last() == z);
    assert(st1.drop_last() =~= st);
    if st.len() >= 1 {
        assert(st1[st1.len() - 2] == st.last());
        assert(st1.drop_last().drop_last() =~= st.drop_last());
    }
}

proof fn lemma_num_fuse_step<S: Scalar>(
    c: Complex<S>,
    j: FastMathInstr<S>,
    z: Complex<S>,
    st: Seq<Complex<S>>,
)
    requires
        num_fused(c, j) is Some,
    ensures
        fast_step(num_fused(c, j).unwrap(), z, st) == (match fast_step(
            FastMathInstr::Number(c),
            z,
            st,
        ) {
            None => None,
            Some(st1) => fast_step(j, z, st1),
        }),
{
    let st1 = st.push(c);
    assert(st1.last() == c);
    assert(st1.drop_last() =~= st);
    if st.len() >= 1 {
        assert(st1[st1.len() - 2] == st.last());
        assert(st1.drop_last().drop_last() =~= st.drop_last());
    }
}

proof fn lemma_fold_step<S: Scalar>(
    c: Complex<S>,
    j: FastMathInstr<S>,
    z: Complex<S>,
    st: Seq<Complex<S>>,
)
    requires
        folded(c, j) is Some,
    ensures
        fast_step(FastMathInstr::Number(folded(c, j).unwrap()), z, st) == (match fast_step(
            FastMathInstr::Number(c),
            z,
            st,
        ) {
            None => None,
            Some(st1) => fast_step(j, z, st1),
        }),
{
    let st1 = st.push(c);
    assert(st1.last() == c);
    assert(st1.drop_last() =~= st);
}

// ---------------------------------------------------------------------------
// Each rewriting pass preserves the meaning of the program exactly, for
// every scalar model and every starting stack.
// ---------------------------------------------------------------------------

/// Operand fusion never changes what a program computes.
pub proof fn lemma_fuse_preserves<S: Scalar>(
    s: Seq<FastMathInstr<S>>,
    z: Complex<S>,
    st: Seq<Complex<S>>,
)
    ensures
        run_fast(spec_fuse(s), z, st) == run_fast(s, z, st),
    decreases s.len(),
{
    if s.len() == 0 {
    } else if s.len() >= 2 && s[0] is Z && z_fused(s[1]) is Some {
        let f = z_fused(s[1]).unwrap();
        let rest = s.skip(2);
        assert(s[0] == FastMathInstr::<S>::Z);
        assert(spec_fuse(s) == seq![f] + spec_fuse(rest));
        lemma_run_fast_concat(seq![f], spec_fuse(rest), z, st);
        lemma_run_fast_single(f, z, st);
        lemma_z_fuse_step(s[1], z, st);
        assert(s.skip(1)[0] == s[1]);
        assert(s.skip(1).skip(1) =~= rest);
        let st1 = st.push(z);
        assert(fast_step(s[0], z, st) == Some(st1));
        assert(run_fast(s, z, st) == run_fast(s.skip(1), z, st1));
        assert(run_fast(s.skip(1), z, st1) == (match fast_step(s[1], z, st1) {
            None => None::<Seq<Complex<S>>>,
            Some(st2) => run_fast(rest, z, st2),
        }));
        assert(run_fast(spec_fuse(s), z, st) == (match fast_step(f, z, st) {
            None => None::<Seq<Complex<S>>>,
            Some(m) => run_fast(spec_fuse(rest), z, m),
        }));
        match fast_step(s[1], z, st1) {
            None => {
                assert(fast_step(f, z, st) is None);
            },
            Some(st2) => {
                assert(fast_step(f, z, st) == Some(st2));
                lemma_fuse_preserves(rest, z, st2);
            },
        }
    } else if s.len() >= 2 && s[0] is Number && num_fused(fast_num_val(s[0]), s[1]) is Some {
        let c = fast_num_val(s[0]);
        let f = num_fused(c, s[1]).unwrap();
        let rest = s.skip(2);
        assert(s[0] == FastMathInstr::Number(c));
        assert(spec_fuse(s) == seq![f] + spec_fuse(rest));
        lemma_run_fast_concat(seq![f], spec_fuse(rest), z, st);
        lemma_run_fast_single(f, z, st);
        lemma_num_fuse_step(c, s[1], z, st);
        assert(s.skip(1)[0] == s[1]);
        assert(s.skip(1).skip(1) =~= rest);
        let st1 = st.push(c);
        assert(fast_step(s[0], z, st) == Some(st1));
        assert(run_fast(s, z, st) == run_fast(s.skip(1), z, st1));
        assert(run_fast(s.skip(1), z, st1) == (match fast_step(s[1], z, st1) {
            None => None::<Seq<Complex<S>>>,
            Some(st2) => run_fast(rest, z, st2),
        }));
        assert(run_fast(spec_fuse(s), z, st) == (match fast_step(f, z, st) {
            None => None::<Seq<Complex<S>>>,
            Some(m) => run_fast(spec_fuse(rest), z, m),
        }));
        match fast_step(s[1], z, st1) {
            None => {
                assert(fast_step(f, z, st) is None);
            },
            Some(st2) => {
                assert(fast_step(f, z, st) == Some(st2));
                lemma_fuse_preserves(rest, z, st2);
            },
        }
    } else {
        let rest = s.skip(1);
        assert(spec_fuse(s) == seq![s[0]] + spec_fuse(rest));
        lemma_run_fast_concat(seq![s[0]], spec_fuse(rest), z, st);
        lemma_run_fast_single(s[0], z, st);
        assert(run_fast(spec_fuse(s), z, st) == (match fast_step(s[0], z, st) {
            None => None::<Seq<Complex<S>>>,
            Some(m) => run_fast(spec_fuse(rest), z, m),
        }));
        assert(run_fast(s, z, st) == (match fast_step(s[0], z, st) {
            None => None::<Seq<Complex<S>>>,
            Some(m) => run_fast(rest, z, m),
        }));
        match fast_step(s[0], z, st) {
            None => {},
            Some(st2) => {
                lemma_fuse_preserves(rest, z, st2);
            },
        }
    }
}

/// Constant folding never changes what a program computes.
pub proof fn lemma_fold_preserves<S: Scalar>(
    s: Seq<FastMathInstr<S>>,
    z: Complex<S>,
    st: Seq<Complex<S>>,
)
    ensures
        run_fast(spec_fold(s), z, st) == run_fast(s, z, st),
    decreases s.len(),
{
    if s.len() == 0 {
    } else if s.len() >= 2 && s[0] is Number && folded(fast_num_val(s[0]), s[1]) is Some {
        let c = fast_num_val(s[0]);
        let f = FastMathInstr::Number(folded(c, s[1]).unwrap());
        let rest = s.skip(2);
        assert(s[0] == FastMathInstr::Number(c));
        assert(spec_fold(s) == seq![f] + spec_fold(rest));
        lemma_run_fast_concat(seq![f], spec_fold(rest), z, st);
        lemma_run_fast_single(f, z, st);
        lemma_fold_step(c, s[1], z, st);
        assert(s.skip(1)[0] == s[1]);
        assert(s.skip(1).skip(1) =~= rest);
        let st1 = st.push(c);
        assert(fast_step(s[0], z, st) == Some(st1));
        assert(run_fast(s, z, st) == run_fast(s.skip(1), z, st1));
        assert(run_fast(s.skip(1), z, st1) == (match fast_step(s[1], z, st1) {
            None => None::<Seq<Complex<S>>>,
            Some(st2) => run_fast(rest, z, st2),
        }));
        assert(run_fast(spec_fold(s), z, st) == (match fast_step(f, z, st) {
            None => None::<Seq<Complex<S>>>,
            Some(m) => run_fast(spec_fold(rest), z, m),
        }));
        match fast_step(s[1], z, st1) {
            None => {
                assert(fast_step(f, z, st) is None);
            },
            Some(st2) => {
                assert(fast_step(f, z, st) == Some(st2));
                lemma_fold_preserves(rest, z, st2);
            },
        }
    } else {
        let rest = s.skip(1);
        assert(spec_fold(s) == seq![s[0]] + spec_fold(rest));
        lemma_run_fast_concat(seq![s[0]], spec_fold(rest), z, st);
        lemma_run_fast_single(s[0], z, st);
        assert(run_fast(spec_fold(s), z, st) == (match fast_step(s[0], z, st) {
            None => None::<Seq<Complex<S>>>,
            Some(m) => run_fast(spec_fold(rest), z, m),
        }));
        assert(run_fast(s, z, st) == (match fast_step(s[0], z, st) {
            None => None::<Seq<Complex<S>>>,
            Some(m) => run_fast(rest, z, m),
        }));
        match fast_step(s[0], z, st) {
            None => {},
            Some(st2) => {
                lemma_fold_preserves(rest, z, st2);
            },
        }
    }
}

/// The whole fixpoint loop never changes what a program computes.
pub proof fn lemma_fixpoint_preserves<S: Scalar>(
    s: Seq<FastMathInstr<S>>,
    z: Complex<S>,
    st: Seq<Complex<S>>,
)
    ensures
        run_fast(spec_fixpoint(s), z, st) == run_fast(s, z, st),
    decreases s.len(),
{
    lemma_fuse_preserves(s, z, st);
    lemma_fold_preserves(spec_fuse(s), z, st);
    let s2 = spec_round(s);
    if s2.len() < s.len() {
        lemma_fixpoint_preserves(s2, z, st);
    }
}

/// Real-number specialization preserves the meaning under the agreement
/// hypothesis on the scalar model.
pub proof fn lemma_specialize_preserves<S: Scalar>(
    s: Seq<FastMathInstr<S>>,
    z: Complex<S>,
    st: Seq<Complex<S>>,
)
    requires
        real_ops_agree::<S>(),
    ensures
        run_fast(spec_specialize(s), z, st) == run_fast(s, z, st),
    decreases s.len(),
{
    if s.len() > 0 {
        let rest = s.skip(1);
        lemma_run_fast_concat(seq![specialize_one(s[0])], spec_specialize(rest), z, st);
        lemma_run_fast_single(specialize_one(s[0]), z, st);
        assert(fast_step(specialize_one(s[0]), z, st) == fast_step(s[0], z, st));
        match fast_step(s[0], z, st) {
            None => {},
            Some(st2) => {
                lemma_specialize_preserves(rest, z, st2);
            },
        }
    }
}

// ---------------------------------------------------------------------------
// Lowering preserves the meaning of the raw program.
// ---------------------------------------------------------------------------

proof fn lemma_contains_imag_skip<S>(s: Seq<MathInstruction<S>>, m: int)
    requires
        0 <= m <= s.len(),
        contains_imag(s.skip(m)),
    ensures
        contains_imag(s),
{
    let k = choose|k: int| 0 <= k < s.skip(m).len() && s.skip(m)[k] is Imag;
    assert(s.skip(m)[k] == s[k + m]);
    assert(0 <= k + m < s.len() && s[k + m] is Imag);
}

proof fn lemma_lower_map_step<S: Scalar>(
    i: MathInstruction<S>,
    z: Complex<S>,
    st: Seq<Complex<S>>,
)
    requires
        !(i is Imag),
    ensures
        fast_step(lower_map(i), z, st) == raw_step(i, z, st),
{
}

/// Lowering preserves the meaning: for a program whose imaginary markers
/// all follow literals, the lowered program computes, step for step, what
/// the raw program computes.  The one hypothesis is only needed where a
/// marker occurs at all.
pub proof fn lemma_lower_preserves<S: Scalar>(
    s: Seq<MathInstruction<S>>,
    z: Complex<S>,
    st: Seq<Complex<S>>,
)
    requires
        imag_markers_ok(s),
        contains_imag(s) ==> imag_literal_agrees::<S>(),
    ensures
        run_fast(spec_lower(s), z, st) == run_raw(s, z, st),
    decreases s.len(),
{
    if s.len() == 0 {
    } else if s[0] is Imag {
        assert(false);
    } else if s[0] is Number && s.len() >= 2 && s[1] is Imag {
        let x = num_val(s[0]);
        let f = FastMathInstr::Number(spec_from_imag(x));
        let rest = s.skip(2);
        assert(s[0] == MathInstruction::Number(x));
        assert(s[1] == MathInstruction::<S>::Imag);
        assert(contains_imag(s)) by {
            assert(0 <= 1 < s.len() && s[1] is Imag);
        }
        assert(imag_markers_ok(rest));
        assert(spec_lower(s) == seq![f] + spec_lower(rest));
        lemma_run_fast_concat(seq![f], spec_lower(rest), z, st);
        lemma_run_fast_single(f, z, st);
        let m = st.push(spec_from_imag(x));
        assert(fast_step(f, z, st) == Some(m));
        assert(run_fast(spec_lower(s), z, st) == run_fast(spec_lower(rest), z, m));
        // The two raw steps: push the literal, then multiply by i.
        assert(s.skip(1)[0] == s[1]);
        assert(s.skip(1).skip(1) =~= rest);
        let st1 = st.push(spec_from_real(x));
        assert(raw_step(s[0], z, st) == Some(st1));
        assert(run_raw(s, z, st) == run_raw(s.skip(1), z, st1));
        assert(st1.last() == spec_from_real(x));
        assert(st1.drop_last() =~= st);
        assert(raw_unary_apply(s[1], st1.last()) == spec_from_imag(x));
        assert(raw_step(s[1], z, st1) == Some(m));
        assert(run_raw(s.skip(1), z, st1) == run_raw(rest, z, m));
        if contains_imag(rest) {
            lemma_contains_imag_skip(s, 2);
        }
        lemma_lower_preserves(rest, z, m);
    } else {
        let rest = s.skip(1);
        assert(imag_markers_ok(rest));
        assert(spec_lower(s) == seq![lower_map(s[0])] + spec_lower(rest));
        lemma_run_fast_concat(seq![lower_map(s[0])], spec_lower(rest), z, st);
        lemma_run_fast_single(lower_map(s[0]), z, st);
        lemma_lower_map_step(s[0], z, st);
        assert(run_fast(spec_lower(s), z, st) == (match raw_step(s[0], z, st) {
            None => None::<Seq<Complex<S>>>,
            Some(m) => run_fast(spec_lower(rest), z, m),
        }));
        assert(run_raw(s, z, st) == (match raw_step(s[0], z, st) {
            None => None::<Seq<Complex<S>>>,
            Some(m) => run_raw(rest, z, m),
        }));
        if contains_imag(rest) {
            lemma_contains_imag_skip(s, 1);
        }
        match raw_step(s[0], z, st) {
            None => {},
            Some(st2) => {
                lemma_lower_preserves(rest, z, st2);
            },
        }
    }
}

// ---------------------------------------------------------------------------
// The round trip: a validated program and its compiled form evaluate to
// the same value at every input.
// ---------------------------------------------------------------------------

/// Fusion and folding alone (the fixpoint pipeline, before specialization)
/// are exact for every scalar model: no hypothesis at all is needed when
/// the program has no imaginary marker.
pub proof fn lemma_rewrite_exact<S: Scalar>(
    s: Seq<MathInstruction<S>>,
    z: Complex<S>,
    st: Seq<Complex<S>>,
)
    requires
        imag_markers_ok(s),
        !contains_imag(s),
    ensures
        run_fast(spec_fixpoint(spec_lower(s)), z, st) == run_raw(s, z, st),
{
    lemma_lower_preserves(s, z, st);
    lemma_fixpoint_preserves(spec_lower(s), z, st);
}

// ---------------------------------------------------------------------------
// Stack-depth soundness: every pass keeps the compiled program inside the
// discipline the validator proved of the raw program, so the optimized
// interpreter's fixed 32-slot stack is never indexed outside its bounds.
// ---------------------------------------------------------------------------

proof fn lemma_lower_depth<S: Scalar>(s: Seq<MathInstruction<S>>, d: int)
    requires
        imag_markers_ok(s),
        scan_bad_index(s, d) is None,
    ensures
        fast_scan_ok(spec_lower(s), d),
        fast_final_depth(spec_lower(s), d) == final_depth(s, d),
    decreases s.len(),
{
    if s.len() == 0 {
    } else if s[0] is Imag {
        assert(false);
    } else if s[0] is Number && s.len() >= 2 && s[1] is Imag {
        let x = num_val(s[0]);
        let f = FastMathInstr::Number(spec_from_imag(x));
        let rest = s.skip(2);
        let low = spec_lower(s);
        assert(s[0] == MathInstruction::Number(x));
        assert(s[1] == MathInstruction::<S>::Imag);
        assert(imag_markers_ok(rest));
        assert(low == seq![f] + spec_lower(rest));
        assert(low[0] == f);
        assert(low.skip(1) =~= spec_lower(rest));
        assert(s.skip(1)[0] == s[1]);
        assert(s.skip(1).skip(1) =~= rest);
        assert(scan_bad_index(s.skip(1), d + 1) is None);
        assert(scan_bad_index(rest, d + 1) is None);
        assert(final_depth(s, d) == final_depth(s.skip(1), d + 1));
        assert(final_depth(s.skip(1), d + 1) == final_depth(rest, d + 1));
        lemma_lower_depth(rest, d + 1);
        assert(fast_scan_ok(low, d));
        assert(fast_final_depth(low, d) == fast_final_depth(spec_lower(rest), d + 1));
    } else {
        let rest = s.skip(1);
        let low = spec_lower(s);
        let d2 = step_depth(s[0], d);
        assert(imag_markers_ok(rest));
        assert(low == seq![lower_map(s[0])] + spec_lower(rest));
        assert(low[0] == lower_map(s[0]));
        assert(low.skip(1) =~= spec_lower(rest));
        assert(fast_step_ok(lower_map(s[0]), d) == step_ok(s[0], d));
        assert(fast_step_depth(lower_map(s[0]), d) == d2);
        assert(scan_bad_index(rest, d2) is None);
        assert(final_depth(s, d) == final_depth(rest, d2));
        lemma_lower_depth(rest, d2);
        assert(fast_scan_ok(low, d));
        assert(fast_final_depth(low, d) == fast_final_depth(spec_lower(rest), d2));
    }
}

proof fn lemma_fuse_depth<S: Scalar>(s: Seq<FastMathInstr<S>>, d: int)
    requires
        fast_scan_ok(s, d),
    ensures
        fast_scan_ok(spec_fuse(s), d),
        fast_final_depth(spec_fuse(s), d) == fast_final_depth(s, d),
    decreases s.len(),
{
    if s.len() == 0 {
    } else if s.len() >= 2 && s[0] is Z && z_fused(s[1]) is Some {
        let f = z_fused(s[1]).unwrap();
        let rest = s.skip(2);
        let fu = spec_fuse(s);
        assert(s[0] == FastMathInstr::<S>::Z);
        assert(fu == seq![f] + spec_fuse(rest));
        assert(fu[0] == f);
        assert(fu.skip(1) =~= spec_fuse(rest));
        assert(s.skip(1)[0] == s[1]);
        assert(s.skip(1).skip(1) =~= rest);
        assert(fast_scan_ok(s.skip(1), d + 1));
        let d2 = fast_step_depth(s[1], d + 1);
        assert(fast_scan_ok(rest, d2));
        assert(fast_final_depth(s, d) == fast_final_depth(s.skip(1), d + 1));
        assert(fast_final_depth(s.skip(1), d + 1) == fast_final_depth(rest, d2));
        assert(fast_step_ok(f, d));
        assert(fast_step_depth(f, d) == d2);
        lemma_fuse_depth(rest, d2);
        assert(fast_scan_ok(fu, d));
        assert(fast_final_depth(fu, d) == fast_final_depth(spec_fuse(rest), d2));
    } else if s.len() >= 2 && s[0] is Number && num_fused(fast_num_val(s[0]), s[1]) is Some {
        let c = fast_num_val(s[0]);
        let f = num_fused(c, s[1]).unwrap();
        let rest = s.skip(2);
        let fu = spec_fuse(s);
        assert(s[0] == FastMathInstr::Number(c));
        assert(fu == seq![f] + spec_fuse(rest));
        assert(fu[0] == f);
        assert(fu.skip(1) =~= spec_fuse(rest));
        assert(s.skip(1)[0] == s[1]);
        assert(s.skip(1).skip(1) =~= rest);
        assert(fast_scan_ok(s.skip(1), d + 1));
        let d2 = fast_step_depth(s[1], d + 1);
        assert(fast_scan_ok(rest, d2));
        assert(fast_final_depth(s, d) == fast_final_depth(s.skip(1), d + 1));
        assert(fast_final_depth(s.skip(1), d + 1) == fast_final_depth(rest, d2));
        assert(fast_step_ok(f, d));
        assert(fast_step_depth(f, d) == d2);
        lemma_fuse_depth(rest, d2);
        assert(fast_scan_ok(fu, d));
        assert(fast_final_depth(fu, d) == fast_final_depth(spec_fuse(rest), d2));
    } else {
        let rest = s.skip(1);
        let fu = spec_fuse(s);
        let d2 = fast_step_depth(s[0], d);
        assert(fu == seq![s[0]] + spec_fuse(rest));
        assert(fu[0] == s[0]);
        assert(fu.skip(1) =~= spec_fuse(rest));
        assert(fast_scan_ok(rest, d2));
        assert(fast_final_depth(s, d) == fast_final_depth(rest, d2));
        lemma_fuse_depth(rest, d2);
        assert(fast_scan_ok(fu, d));
        assert(fast_final_depth(fu, d) == fast_final_depth(spec_fuse(rest), d2));
    }
}

proof fn lemma_fold_depth<S: Scalar>(s: Seq<FastMathInstr<S>>, d: int)
    requires
        fast_scan_ok(s, d),
    ensures
        fast_scan_ok(spec_fold(s), d),
        fast_final_depth(spec_fold(s), d) == fast_final_depth(s, d),
    decreases s.len(),
{
    if s.len() == 0 {
    } else if s.len() >= 2 && s[0] is Number && folded(fast_num_val(s[0]), s[1]) is Some {
        let c = fast_num_val(s[0]);
        let f = FastMathInstr::Number(folded(c, s[1]).unwrap());
        let rest = s.skip(2);
        let fo = spec_fold(s);
        assert(s[0] == FastMathInstr::Number(c));
        assert(fo == seq![f] + spec_fold(rest));
        assert(fo[0] == f);
        assert(fo.skip(1) =~= spec_fold(rest));
        assert(s.skip(1)[0] == s[1]);
        assert(s.skip(1).skip(1) =~= rest);
        assert(fast_scan_ok(s.skip(1), d + 1));
        let d2 = fast_step_depth(s[1], d + 1);
        assert(fast_scan_ok(rest, d2));
        assert(fast_final_depth(s, d) == fast_final_depth(s.skip(1), d + 1));
        assert(fast_final_depth(s.skip(1), d + 1) == fast_final_depth(rest, d2));
        assert(fast_step_ok(f, d));
        assert(fast_step_depth(f, d) == d2);
        lemma_fold_depth(rest, d2);
        assert(fast_scan_ok(fo, d));
        assert(fast_final_depth(fo, d) == fast_final_depth(spec_fold(rest), d2));
    } else {
        let rest = s.skip(1);
        let fo = spec_fold(s);
        let d2 = fast_step_depth(s[0], d);
        assert(fo == seq![s[0]] + spec_fold(rest));
        assert(fo[0] == s[0]);
        assert(fo.skip(1) =~= spec_fold(rest));
        assert(fast_scan_ok(rest, d2));
        assert(fast_final_depth(s, d) == fast_final_depth(rest, d2));
        lemma_fold_depth(rest, d2);
        assert(fast_scan_ok(fo, d));
        assert(fast_final_depth(fo, d) == fast_final_depth(spec_fold(rest), d2));
    }
}

proof fn lemma_fixpoint_depth<S: Scalar>(s: Seq<FastMathInstr<S>>, d: int)
    requires
        fast_scan_ok(s, d),
    ensures
        fast_scan_ok(spec_fixpoint(s), d),
        fast_final_depth(spec_fixpoint(s), d) == fast_final_depth(s, d),
    decreases s.len(),
{
    lemma_fuse_depth(s, d);
    lemma_fold_depth(spec_fuse(s), d);
    let s2 = spec_round(s);
    if s2.len() < s.len() {
        lemma_fixpoint_depth(s2, d);
    }
}

proof fn lemma_specialize_depth<S: Scalar>(s: Seq<FastMathInstr<S>>, d: int)
    requires
        fast_scan_ok(s, d),
    ensures
        fast_scan_ok(spec_specialize(s), d),
        fast_final_depth(spec_specialize(s), d) == fast_final_depth(s, d),
    decreases s.len(),
{
    if s.len() > 0 {
        let rest = s.skip(1);
        let sp = spec_specialize(s);
        let d2 = fast_step_depth(s[0], d);
        assert(sp == seq![specialize_one(s[0])] + spec_specialize(rest));
        assert(sp[0] == specialize_one(s[0]));
        assert(sp.skip(1) =~= spec_specialize(rest));
        assert(fast_step_ok(specialize_one(s[0]), d) == fast_step_ok(s[0], d));
        assert(fast_step_depth(specialize_one(s[0]), d) == d2);
        assert(fast_scan_ok(rest, d2));
        assert(fast_final_depth(s, d) == fast_final_depth(rest, d2));
        lemma_specialize_depth(rest, d2);
        assert(fast_scan_ok(sp, d));
        assert(fast_final_depth(sp, d) == fast_final_depth(spec_specialize(rest), d2));
    }
}

/// Validator soundness, carried through the compiler: a program the
/// validator accepts compiles to a well-formed fast program — on the fixed
/// 32-slot evaluation stack it never underflows, never needs a slot beyond
/// the capacity, and leaves exactly one value.  Together with
/// `lemma_fast_scan_runs` this makes the optimized interpreter's unchecked
/// stack layout safe.
pub proof fn lemma_validator_soundness<S: Scalar>(s: Seq<MathInstruction<S>>)
    requires
        valid_ok(s),
        imag_markers_ok(s),
    ensures
        fast_wf(spec_compile(s)),
{
    lemma_lower_depth(s, 0);
    lemma_fixpoint_depth(spec_lower(s), 0);
    lemma_specialize_depth(spec_fixpoint(spec_lower(s)), 0);
}

// ---------------------------------------------------------------------------
// Field laws, lifted from the scalar model to the complex level.  Each
// hypothesis names exactly the scalar law the complex law rests on; an IEEE
// model satisfies addition commutativity exactly, the others up to its edge
// cases.
// ---------------------------------------------------------------------------

pub open spec fn scalar_add_commutes<S: Scalar>() -> bool {
    forall|x: S, y: S| #[trigger] x.spec_add(y) == y.spec_add(x)
}

pub open spec fn scalar_mul_commutes<S: Scalar>() -> bool {
    forall|x: S, y: S| #[trigger] x.spec_mul(y) == y.spec_mul(x)
}

pub open spec fn scalar_add_associates<S: Scalar>() -> bool {
    forall|x: S, y: S, w: S| #[trigger] x.spec_add(y).spec_add(w) == x.spec_add(y.spec_add(w))
}

pub open spec fn scalar_neg_involutes<S: Scalar>() -> bool {
    forall|x: S| #[trigger] x.spec_neg().spec_neg() == x
}

/// Complex addition commutes whenever scalar addition does.
pub proof fn lemma_cadd_commutative<S: Scalar>(a: Complex<S>, b: Complex<S>)
    requires
        scalar_add_commutes::<S>(),
    ensures
        spec_cadd(a, b) == spec_cadd(b, a),
{
}

/// Complex addition associates whenever scalar addition does.
pub proof fn lemma_cadd_associative<S: Scalar>(a: Complex<S>, b: Complex<S>, c: Complex<S>)
    requires
        scalar_add_associates::<S>(),
    ensures
        spec_cadd(spec_cadd(a, b), c) == spec_cadd(a, spec_cadd(b, c)),
{
}

/// Complex multiplication commutes whenever scalar multiplication and
/// addition do.
pub proof fn lemma_cmul_commutative<S: Scalar>(a: Complex<S>, b: Complex<S>)
    requires
        scalar_mul_commutes::<S>(),
        scalar_add_commutes::<S>(),
    ensures
        spec_cmul(a, b) == spec_cmul(b, a),
{
}

/// The laws of a commutative ring, as far as associativity of complex
/// multiplication needs them: commutative and associative addition,
/// associative multiplication, distribution over sums and differences, and
/// the usual regrouping of mixed sums and differences.  No floating-point
/// model satisfies them exactly; the lemma below states precisely what the
/// complex law rests on.
pub open spec fn scalar_ring_laws<S: Scalar>() -> bool {
    &&& scalar_add_commutes::<S>()
    &&& scalar_add_associates::<S>()
    &&& forall|x: S, y: S, w: S|
        #[trigger] x.spec_mul(y).spec_mul(w) == x.spec_mul(y.spec_mul(w))
    &&& forall|x: S, y: S, w: S|
        #[trigger] x.spec_add(y).spec_mul(w) == x.spec_mul(w).spec_add(y.spec_mul(w))
    &&& forall|x: S, y: S, w: S|
        #[trigger] x.spec_sub(y).spec_mul(w) == x.spec_mul(w).spec_sub(y.spec_mul(w))
    &&& forall|x: S, y: S, w: S|
        #[trigger] x.spec_mul(y.spec_add(w)) == x.spec_mul(y).spec_add(x.spec_mul(w))
    &&& forall|x: S, y: S, w: S|
        #[trigger] x.spec_mul(y.spec_sub(w)) == x.spec_mul(y).spec_sub(x.spec_mul(w))
    &&& forall|x: S, y: S, w: S|
        #[trigger] x.spec_sub(y).spec_sub(w) == x.spec_sub(y.spec_add(w))
    &&& forall|x: S, y: S, w: S|
        #[trigger] x.spec_sub(y).spec_add(w) == x.spec_add(w).spec_sub(y)
    &&& forall|x: S, y: S, w: S|
        #[trigger] x.spec_add(y.spec_sub(w)) == x.spec_add(y).spec_sub(w)
}

/// Complex multiplication associates whenever the scalar model is a
/// commutative ring.
pub proof fn lemma_cmul_associative<S: Scalar>(a: Complex<S>, b: Complex<S>, c: Complex<S>)
    requires
        scalar_ring_laws::<S>(),
    ensures
        spec_cmul(spec_cmul(a, b), c) == spec_cmul(a, spec_cmul(b, c)),
{
    let t1 = a.real.spec_mul(b.real).spec_mul(c.real);
    let t2 = a.imag.spec_mul(b.imag).spec_mul(c.real);
    let t3 = a.real.spec_mul(b.imag).spec_mul(c.imag);
    let t4 = a.imag.spec_mul(b.real).spec_mul(c.imag);
    let t5 = a.real.spec_mul(b.real).spec_mul(c.imag);
    let t6 = a.imag.spec_mul(b.imag).spec_mul(c.imag);
    let t7 = a.real.spec_mul(b.imag).spec_mul(c.real);
    let t8 = a.imag.spec_mul(b.real).spec_mul(c.real);

    // The left association, distributed into eight products.
    assert(spec_cmul(spec_cmul(a, b), c).real == t1.spec_sub(t2).spec_sub(t3.spec_add(t4)));
    assert(spec_cmul(spec_cmul(a, b), c).imag == t5.spec_sub(t6).spec_add(t7.spec_add(t8)));
    // The right association, distributed and reassociated into the same ones.
    assert(spec_cmul(a, spec_cmul(b, c)).real == t1.spec_sub(t3).spec_sub(t4.spec_add(t2)));
    assert(spec_cmul(a, spec_cmul(b, c)).imag == t5.spec_add(t7).spec_add(t8.spec_sub(t6)));
    // Both real parts subtract the same sum from the first product.
    assert(t1.spec_sub(t2).spec_sub(t3.spec_add(t4)) == t1.spec_sub(
        t2.spec_add(t3.spec_add(t4)),
    ));
    assert(t1.spec_sub(t3).spec_sub(t4.spec_add(t2)) == t1.spec_sub(
        t3.spec_add(t4.spec_add(t2)),
    ));
    assert(t3.spec_add(t4.spec_add(t2)) == t3.spec_add(t2.spec_add(t4)));
    assert(t3.spec_add(t2.spec_add(t4)) == t3.spec_add(t2).spec_add(t4));
    assert(t3.spec_add(t2) == t2.spec_add(t3));
    assert(t2.spec_add(t3).spec_add(t4) == t2.spec_add(t3.spec_add(t4)));
    // Both imaginary parts subtract the same product from the same sum.
    assert(t5.spec_sub(t6).spec_add(t7.spec_add(t8)) == t5.spec_add(t7.spec_add(t8)).spec_sub(
        t6,
    ));
    assert(t5.spec_add(t7).spec_add(t8.spec_sub(t6)) == t5.spec_add(t7).spec_add(t8).spec_sub(
        t6,
    ));
    assert(t5.spec_add(t7.spec_add(t8)) == t5.spec_add(t7).spec_add(t8));
}

/// The division laws of a field, as far as self-division needs them:
/// products and negations move through divisions, quotients over a common
/// divisor add, a nonzero value divided by itself is one, and a value
/// cancels its negation.
pub open spec fn scalar_division_laws<S: Scalar>() -> bool {
    &&& scalar_mul_commutes::<S>()
    &&& forall|x: S, y: S, w: S|
        #[trigger] x.spec_mul(y.spec_div(w)) == x.spec_mul(y).spec_div(w)
    &&& forall|x: S, y: S| #[trigger] x.spec_mul(y.spec_neg()) == x.spec_mul(y).spec_neg()
    &&& forall|x: S, w: S| #[trigger] x.spec_neg().spec_div(w) == x.spec_div(w).spec_neg()
    &&& forall|x: S, y: S| #[trigger] x.spec_sub(y.spec_neg()) == x.spec_add(y)
    &&& forall|x: S, y: S, w: S|
        #[trigger] x.spec_div(w).spec_add(y.spec_div(w)) == x.spec_add(y).spec_div(w)
    &&& forall|x: S| !x.spec_is_zero() ==> #[trigger] x.spec_div(x) == S::spec_one()
    &&& forall|x: S| #[trigger] x.spec_neg().spec_add(x) == S::spec_zero()
}

/// Dividing a value by itself gives one, whenever the scalar model obeys
/// the division laws of a field and the squared modulus is not zero — the
/// self-division law for finite nonzero values.
pub proof fn lemma_self_division<S: Scalar>(z: Complex<S>)
    requires
        scalar_division_laws::<S>(),
        !spec_sq_mod(z).spec_is_zero(),
    ensures
        spec_cdiv(z, z) == spec_from_real(S::spec_one()),
{
    let sq = spec_sq_mod(z);
    let re = z.real;
    let im = z.imag;
    // The real component collapses to sq / sq.
    assert(re.spec_mul(re.spec_div(sq)) == re.spec_mul(re).spec_div(sq));
    assert(im.spec_mul(im.spec_neg().spec_div(sq)) == im.spec_mul(im.spec_neg()).spec_div(sq));
    assert(im.spec_mul(im.spec_neg()) == im.spec_mul(im).spec_neg());
    assert(im.spec_mul(im).spec_neg().spec_div(sq) == im.spec_mul(im).spec_div(sq).spec_neg());
    assert(re.spec_mul(re).spec_div(sq).spec_sub(im.spec_mul(im).spec_div(sq).spec_neg())
        == re.spec_mul(re).spec_div(sq).spec_add(im.spec_mul(im).spec_div(sq)));
    assert(re.spec_mul(re).spec_div(sq).spec_add(im.spec_mul(im).spec_div(sq)) == re.spec_mul(
        re,
    ).spec_add(im.spec_mul(im)).spec_div(sq));
    assert(sq.spec_div(sq) == S::spec_one());
    // The imaginary component cancels against its own negation.
    assert(re.spec_mul(im.spec_neg().spec_div(sq)) == re.spec_mul(im.spec_neg()).spec_div(sq));
    assert(re.spec_mul(im.spec_neg()) == re.spec_mul(im).spec_neg());
    assert(re.spec_mul(im).spec_neg().spec_div(sq) == re.spec_mul(im).spec_div(sq).spec_neg());
    assert(im.spec_mul(re.spec_div(sq)) == im.spec_mul(re).spec_div(sq));
    assert(im.spec_mul(re) == re.spec_mul(im));
    assert(re.spec_mul(im).spec_div(sq).spec_neg().spec_add(re.spec_mul(im).spec_div(sq))
        == S::spec_zero());
}

/// Conjugation is an involution whenever scalar negation is.
pub proof fn lemma_conj_involution<S: Scalar>(z: Complex<S>)
    requires
        scalar_neg_involutes::<S>(),
    ensures
        spec_conj(spec_conj(z)) == z,
{
}

/// The round-trip law: for every program the validator accepts (and whose
/// imaginary markers follow literals, the only shape the compiler gives a
/// meaning to), evaluating the compiled program equals evaluating the raw
/// program, at every input, under the stated hypotheses on the scalar
/// model.  An IEEE model satisfies them except on signed-zero, infinity
/// and NaN edge cases, which is the floating-point tolerance of the
/// informal claim.
pub proof fn lemma_compile_round_trip<S: Scalar>(s: Seq<MathInstruction<S>>, z: Complex<S>)
    requires
        valid_ok(s),
        imag_markers_ok(s),
        real_ops_agree::<S>(),
        contains_imag(s) ==> imag_literal_agrees::<S>(),
    ensures
        run_raw(s, z, Seq::empty()) is Some,
        run_fast(spec_compile(s), z, Seq::empty()) == run_raw(s, z, Seq::empty()),
        spec_eval_fast(spec_compile(s), z) == spec_eval_raw(s, z),
{
    lemma_lower_preserves(s, z, Seq::<Complex<S>>::empty());
    lemma_fixpoint_preserves(spec_lower(s), z, Seq::<Complex<S>>::empty());
    lemma_specialize_preserves(
        spec_fixpoint(spec_lower(s)),
        z,
        Seq::<Complex<S>>::empty(),
    );
    lemma_raw_scan_runs(s, z, Seq::<Complex<S>>::empty());
}

} // verus!

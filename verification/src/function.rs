//! The raw instruction set, the bounded program container, the validator
//! and the textual rendering.

use vstd::prelude::*;

use crate::scalar::Scalar;

verus! {

/// The capacity of a program: an edit that would grow it further is refused.
pub const FUNCTION_SIZE: usize = 255;

/// The capacity of the evaluation stack; the validator proves no accepted
/// program ever needs more slots than this.
pub const STACK_SIZE: usize = 32;

/// One token of a user-entered expression in stack (reverse-Polish) order.
#[derive(Clone, Copy, Debug, PartialEq)]
pub enum MathInstruction<S> {
    /// Push the live input.
    Z,
    /// Push the conjugate of the live input.
    ZConj,
    /// Push a literal, read as a purely real value.
    Number(S),
    /// Conjugate the top of the stack.
    Conj,
    /// Turn the value below into a purely imaginary one: multiply the top of
    /// the stack by the imaginary unit.
    Imag,
    /// Push the constant pi.
    Pi,
    /// Push Euler's constant.
    E,
    Add,
    Sub,
    Mul,
    Div,
    /// Raise the value below the top to the power on top.
    Pow,
    /// The square root, evaluated as the one-half power.
    Sqrt,
    Exp,
    /// The principal-branch natural logarithm.
    Ln,
    /// The logarithm with an explicit base taken from the top of the stack.
    Log,
    Sin,
    Cos,
    Tan,
    Arcsin,
    Arccos,
    Arctan,
}

// ---------------------------------------------------------------------------
// The stack discipline: every instruction is a producer (pushes one value),
// a unary operator (replaces the top) or a binary operator (pops two values
// and pushes one).
// ---------------------------------------------------------------------------

pub open spec fn is_producer<S>(i: MathInstruction<S>) -> bool {
    ||| i is Z
    ||| i is ZConj
    ||| i is Number
    ||| i is Pi
    ||| i is E
}

pub open spec fn is_unary<S>(i: MathInstruction<S>) -> bool {
    ||| i is Conj
    ||| i is Imag
    ||| i is Sqrt
    ||| i is Exp
    ||| i is Ln
    ||| i is Sin
    ||| i is Cos
    ||| i is Tan
    ||| i is Arcsin
    ||| i is Arccos
    ||| i is Arctan
}

pub open spec fn is_binary<S>(i: MathInstruction<S>) -> bool {
    ||| i is Add
    ||| i is Sub
    ||| i is Mul
    ||| i is Div
    ||| i is Pow
    ||| i is Log
}

/// The stack depth after executing one instruction at depth `d`.
pub open spec fn step_depth<S>(i: MathInstruction<S>, d: int) -> int {
    if is_producer(i) {
        d + 1
    } else if is_unary(i) {
        d
    } else {
        d - 1
    }
}

/// Whether one instruction is admissible at depth `d`: a producer needs a
/// free slot, a unary operator a value to act on, a binary operator two.
pub open spec fn step_ok<S>(i: MathInstruction<S>, d: int) -> bool {
    if is_producer(i) {
        d < STACK_SIZE
    } else if is_unary(i) {
        d >= 1
    } else {
        d >= 2
    }
}

/// The position (relative to the start of `s`) of the first instruction
/// that violates the stack discipline when the scan starts at depth `d`,
/// or `None` when every instruction is admissible.
pub open spec fn scan_bad_index<S>(s: Seq<MathInstruction<S>>, d: int) -> Option<int>
    decreases s.len(),
{
    if s.len() == 0 {
        None
    } else if !step_ok(s[0], d) {
        Some(0int)
    } else {
        match scan_bad_index(s.skip(1), step_depth(s[0], d)) {
            Some(j) => Some(j + 1),
            None => None,
        }
    }
}

/// The stack depth after the whole of `s`, starting from depth `d`.
pub open spec fn final_depth<S>(s: Seq<MathInstruction<S>>, d: int) -> int
    decreases s.len(),
{
    if s.len() == 0 {
        d
    } else {
        final_depth(s.skip(1), step_depth(s[0], d))
    }
}

/// A program is accepted exactly when every instruction respects the stack
/// discipline and one single value remains at the end.
pub open spec fn valid_ok<S>(s: Seq<MathInstruction<S>>) -> bool {
    scan_bad_index(s, 0) is None && final_depth(s, 0) == 1
}

/// What validation reports: the index of the first offending instruction,
/// or the end-of-program sentinel (`usize::MAX`) for a program whose every
/// instruction is fine but which does not leave exactly one value.
pub open spec fn spec_validate<S>(s: Seq<MathInstruction<S>>) -> Result<(), SyntaxError> {
    match scan_bad_index(s, 0) {
        Some(j) => Err(SyntaxError { op_index: j as usize }),
        None => if final_depth(s, 0) == 1 {
            Ok(())
        } else {
            Err(SyntaxError { op_index: usize::MAX })
        },
    }
}

/// A stack-discipline violation, locating the first offending instruction;
/// `op_index == usize::MAX` is the end-of-program sentinel for an
/// incomplete expression.
#[derive(Clone, Copy, Debug, PartialEq, Eq, Structural)]
pub struct SyntaxError {
    pub op_index: usize,
}

/// An edit was refused because the program is at capacity.
#[derive(Clone, Copy, Debug, PartialEq, Eq, Structural)]
pub struct CapacityError;

/// A raw program: the ordered sequence of entered instructions, bounded by
/// `FUNCTION_SIZE`.
#[derive(Clone, Debug, PartialEq)]
pub struct Function<S> {
    instructions: Vec<MathInstruction<S>>,
}

impl<S> View for Function<S> {
    type V = Seq<MathInstruction<S>>;

    closed spec fn view(&self) -> Seq<MathInstruction<S>> {
        self.instructions@
    }
}

impl<S: Scalar> Function<S> {
    /// Builds a program from a slice of instructions; the slice must fit
    /// the fixed capacity.
    pub fn from_slice(s: &[MathInstruction<S>]) -> (r: Self)
        requires
            s@.len() <= FUNCTION_SIZE,
        ensures
            r@ == s@,
    {
        let mut instructions: Vec<MathInstruction<S>> = Vec::new();
        let mut k: usize = 0;
        while k < s.len()
            invariant
                k <= s@.len(),
                instructions@ == s@.take(k as int),
            decreases s@.len() - k,
        {
            instructions.push(s[k]);
            k = k + 1;
            proof {
                assert(instructions@ =~= s@.take(k as int));
            }
        }
        proof {
            assert(s@.take(s@.len() as int) =~= s@);
        }
        Function { instructions }
    }

    /// Appends one instruction; refused when the program is at capacity, so
    /// the editor can reject the keystroke.
    pub fn push(&mut self, i: MathInstruction<S>) -> (r: Result<(), CapacityError>)
        ensures
            old(self)@.len() < FUNCTION_SIZE ==> r is Ok && final(self)@ == old(self)@.push(i),
            old(self)@.len() >= FUNCTION_SIZE ==> r is Err && final(self)@ == old(self)@,
    {
        if self.instructions.len() < FUNCTION_SIZE {
            self.instructions.push(i);
            Ok(())
        } else {
            Err(CapacityError)
        }
    }

    /// Removes and returns the last instruction; a no-op on an empty
    /// program.
    pub fn pop(&mut self) -> (r: Option<MathInstruction<S>>)
        ensures
            old(self)@.len() == 0 ==> r is None && final(self)@ == old(self)@,
            old(self)@.len() > 0 ==> r == Some(old(self)@.last()) && final(self)@ == old(
                self,
            )@.drop_last(),
    {
        self.instructions.pop()
    }

    pub fn len(&self) -> (r: usize)
        ensures
            r == self@.len(),
    {
        self.instructions.len()
    }

    pub fn get(&self, idx: usize) -> (r: &MathInstruction<S>)
        requires
            idx < self@.len(),
        ensures
            *r == self@[idx as int],
    {
        &self.instructions[idx]
    }
}

impl<S: Scalar> Function<S> {
    /// Renders the program as the editor shows it: every token preceded by
    /// one space, the whole line nul-terminated.
    pub fn to_text(&self) -> (r: String)
        ensures
            r@ == spec_function_text(self@),
    {
        let ghost s = self@;
        let n = self.len();
        let mut out = String::new();
        let mut i: usize = 0;

        proof {
            assert(s.skip(0) =~= s);
        }

        while i < n
            invariant
                s == self@,
                n == s.len(),
                i <= n,
                spec_text_body(s) == out@ + spec_text_body(s.skip(i as int)),
            decreases n - i,
        {
            let ghost pre = out@;
            proof {
                assert(s.skip(i as int)[0] == s[i as int]);
                assert(s.skip(i as int).skip(1) =~= s.skip(i as int + 1));
            }
            out.append(" ");
            let instr = self.get(i);
            match instr {
                MathInstruction::Z => out.append("Z"),
                MathInstruction::ZConj => out.append("Z*"),
                MathInstruction::Number(x) => {
                    let t = x.text();
                    out.append(t.as_str());
                },
                MathInstruction::Conj => out.append("_"),
                MathInstruction::Imag => out.append("i"),
                MathInstruction::Pi => out.append("pi"),
                MathInstruction::E => out.append("e"),
                MathInstruction::Add => out.append("+"),
                MathInstruction::Sub => out.append("-"),
                MathInstruction::Mul => out.append("*"),
                MathInstruction::Div => out.append("/"),
                MathInstruction::Pow => out.append("^"),
                MathInstruction::Sqrt => out.append("sqrt"),
                MathInstruction::Exp => out.append("e^"),
                MathInstruction::Ln => out.append("ln"),
                MathInstruction::Log => out.append("log"),
                MathInstruction::Sin => out.append("sin"),
                MathInstruction::Cos => out.append("cos"),
                MathInstruction::Tan => out.append("tan"),
                MathInstruction::Arcsin => out.append("arcsin"),
                MathInstruction::Arccos => out.append("arccos"),
                MathInstruction::Arctan => out.append("arctan"),
            }
            proof {
                assert(out@ =~= pre + (" "@ + spec_instr_text(s[i as int])));
                assert(out@ + spec_text_body(s.skip(i as int + 1)) =~= pre + spec_text_body(
                    s.skip(i as int),
                ));
            }
            i = i + 1;
        }

        proof {
            assert(s.skip(n as int) =~= Seq::<MathInstruction<S>>::empty());
            assert(out@ =~= spec_text_body(s));
        }
        out.append("\0");
        out
    }
}

impl<S: Scalar> Default for Function<S> {
    /// The empty program.
    fn default() -> (r: Self)
        ensures
            r@ == Seq::<MathInstruction<S>>::empty(),
    {
        Function { instructions: Vec::new() }
    }
}

// ---------------------------------------------------------------------------
// Textual rendering: the display token of each instruction, and a whole
// program as one space-separated, nul-terminated line for the editor.
// ---------------------------------------------------------------------------

/// The display token of one instruction.
pub open spec fn spec_instr_text<S: Scalar>(i: MathInstruction<S>) -> Seq<char> {
    match i {
        MathInstruction::Z => "Z"@,
        MathInstruction::ZConj => "Z*"@,
        MathInstruction::Number(x) => x.spec_text(),
        MathInstruction::Conj => "_"@,
        MathInstruction::Imag => "i"@,
        MathInstruction::Pi => "pi"@,
        MathInstruction::E => "e"@,
        MathInstruction::Add => "+"@,
        MathInstruction::Sub => "-"@,
        MathInstruction::Mul => "*"@,
        MathInstruction::Div => "/"@,
        MathInstruction::Pow => "^"@,
        MathInstruction::Sqrt => "sqrt"@,
        MathInstruction::Exp => "e^"@,
        MathInstruction::Ln => "ln"@,
        MathInstruction::Log => "log"@,
        MathInstruction::Sin => "sin"@,
        MathInstruction::Cos => "cos"@,
        MathInstruction::Tan => "tan"@,
        MathInstruction::Arcsin => "arcsin"@,
        MathInstruction::Arccos => "arccos"@,
        MathInstruction::Arctan => "arctan"@,
    }
}

/// Every token of the program, each preceded by one space.
pub open spec fn spec_text_body<S: Scalar>(s: Seq<MathInstruction<S>>) -> Seq<char>
    decreases s.len(),
{
    if s.len() == 0 {
        Seq::empty()
    } else {
        " "@ + spec_instr_text(s[0]) + spec_text_body(s.skip(1))
    }
}

/// The whole rendering, nul-terminated for the display driver.
pub open spec fn spec_function_text<S: Scalar>(s: Seq<MathInstruction<S>>) -> Seq<char> {
    spec_text_body(s) + "\0"@
}

/// A violation reported by the scan always names a real position.
proof fn lemma_scan_bad_bound<S>(s: Seq<MathInstruction<S>>, d: int)
    ensures
        scan_bad_index(s, d) matches Some(j) ==> 0 <= j < s.len(),
    decreases s.len(),
{
    if s.len() > 0 && step_ok(s[0], d) {
        lemma_scan_bad_bound(s.skip(1), step_depth(s[0], d));
    }
}

/// Static validation of the stack discipline.
pub trait Validate {
    /// The exact outcome validation reports.
    spec fn validate_spec(&self) -> Result<(), SyntaxError>;

    fn validate(&self) -> (r: Result<(), SyntaxError>)
        ensures
            r == self.validate_spec(),
    ;
}

impl<S: Scalar> Validate for Function<S> {
    open spec fn validate_spec(&self) -> Result<(), SyntaxError> {
        spec_validate(self@)
    }

    /// One forward scan, counting the stack depth: producers must find a
    /// free slot, unary operators one operand, binary operators two; at the
    /// end exactly one value must remain.
    fn validate(&self) -> (r: Result<(), SyntaxError>) {
        let ghost s = self@;
        let n = self.instructions.len();
        let mut depth: usize = 0;
        let mut i: usize = 0;

        proof {
            assert(s.skip(0) =~= s);
        }

        while i < n
            invariant
                self.instructions@ == s,
                n == s.len(),
                i <= n,
                depth <= STACK_SIZE,
                spec_validate(s) == (match scan_bad_index(s.skip(i as int), depth as int) {
                    Some(j) => Err(SyntaxError { op_index: (i + j) as usize }),
                    None => if final_depth(s.skip(i as int), depth as int) == 1 {
                        Ok::<(), SyntaxError>(())
                    } else {
                        Err(SyntaxError { op_index: usize::MAX })
                    },
                }),
            decreases n - i,
        {
            let instr = &self.instructions[i];
            proof {
                assert(s.skip(i as int)[0] == s[i as int]);
                assert(s.skip(i as int).skip(1) =~= s.skip(i as int + 1));
                lemma_scan_bad_bound(s.skip(i as int + 1), step_depth(s[i as int], depth as int));
            }
            match instr {
                MathInstruction::Z
                | MathInstruction::ZConj
                | MathInstruction::Number(_)
                | MathInstruction::Pi
                | MathInstruction::E => {
                    if depth == STACK_SIZE {
                        return Err(SyntaxError { op_index: i });
                    }
                    depth = depth + 1;
                }
                MathInstruction::Conj
                | MathInstruction::Imag
                | MathInstruction::Sqrt
                | MathInstruction::Exp
                | MathInstruction::Ln
                | MathInstruction::Sin
                | MathInstruction::Cos
                | MathInstruction::Tan
                | MathInstruction::Arcsin
                | MathInstruction::Arccos
                | MathInstruction::Arctan => {
                    if depth == 0 {
                        return Err(SyntaxError { op_index: i });
                    }
                }
                MathInstruction::Add
                | MathInstruction::Sub
                | MathInstruction::Mul
                | MathInstruction::Div
                | MathInstruction::Pow
                | MathInstruction::Log => {
                    if depth < 2 {
                        return Err(SyntaxError { op_index: i });
                    }
                    depth = depth - 1;
                }
            }
            i = i + 1;
        }

        proof {
            assert(s.skip(n as int) =~= Seq::<MathInstruction<S>>::empty());
        }
        if depth == 1 {
            Ok(())
        } else {
            Err(SyntaxError { op_index: usize::MAX })
        }
    }
}

} // verus!

//! A verified core for a domain-coloring expression plotter.
//!
//! User-entered expressions over one complex variable become stack-machine
//! programs.  A validator proves a program leaves exactly one value on the
//! stack, an optimizing compiler lowers it by iterative peephole rewriting,
//! and interpreters for both forms evaluate it at one complex input per
//! pixel.  All of that logic is verified here over an abstract scalar model;
//! the application shell supplies the IEEE floating-point model and the
//! screen.

pub mod compile;
pub mod complex;
pub mod eval;
pub mod fast;
pub mod function;
pub mod laws;
pub mod plot;
pub mod scalar;
pub mod utils;

pub use compile::compile;
pub use complex::{Complex, Conj, Exp, InverseTrig, Log, Pow, Trig};
pub use eval::Evaluate;
pub use fast::{FastFunction, FastMathInstr};
pub use function::{CapacityError, Function, MathInstruction, SyntaxError, Validate};
pub use plot::ColorMapper;
pub use utils::wait_till_released;
pub use scalar::Scalar;

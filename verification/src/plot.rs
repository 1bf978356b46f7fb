//! The palette selection the renderer is configured with.

use vstd::prelude::*;

verus! {

/// The palette a rendered value is mapped through.  The mapping functions
/// themselves are floating-point code and live with the display driver in
/// the application shell; the core only carries the selection.
#[derive(Clone, Copy, Debug, PartialEq, Eq, Structural)]
pub enum ColorMapper {
    /// Lightness from a saturating sigmoid of the modulus.
    Sigmoid,
    /// Lightness from the fractional part of the modulus' base-two
    /// logarithm.
    Log2,
    /// A checkerboard over the integer grid.
    Checkerboard,
}

} // verus!

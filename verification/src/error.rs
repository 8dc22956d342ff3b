//! The one failure of the library: two shapes that should agree do not.

use vstd::prelude::*;

verus! {

/// Two dimensions that had to agree differ.
#[derive(Debug, Clone, Copy, PartialEq, Eq, Structural)]
pub enum ShapeMismatch {
    /// A buffer does not hold `rows * cols` numbers.
    Data { rows: usize, cols: usize, len: usize },
    /// There is not one target for each sample.
    Targets { samples: usize, targets: usize },
    /// The samples to predict for do not have the model's feature count.
    Features { expected: usize, found: usize },
    /// A round handed back another count of parameters than the model has.
    Parameters { expected: usize, found: usize },
}

} // verus!

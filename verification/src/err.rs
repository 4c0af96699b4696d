//! The generator's error taxonomy: caller misuse, a board too large for the
//! coordinate arithmetic, and the two unrecoverable bookkeeping states.

use vstd::prelude::*;

verus! {

/// Why a generation run cannot proceed.
#[derive(PartialEq, Eq, Structural, Clone, Copy, Debug)]
pub enum GenError {
    /// A requested board dimension was zero.
    InvalidDimensions,
    /// A requested board dimension was too large for the grid arithmetic.
    GridTooLarge,
    /// The random candidate selector found no empty cell although the board
    /// was not full: the grid bookkeeping is inconsistent.
    NoCandidates,
    /// A pattern matched but its application marked no cell: the
    /// pattern/position combination is inconsistent.
    NothingOccupied,
}

} // verus!

//! A puzzle-entity position on the board, compared row-first: positions are
//! ordered by their second coordinate and, within a row, by their first.

use vstd::prelude::*;

use core::cmp::Ordering;

verus! {

/// A coordinate component of a puzzle-entity position.
pub type Offset = u16;

/// A puzzle-entity position `(column, row)`.
#[derive(Eq)]
pub struct Position(pub Offset, pub Offset);

impl Position {
    /// The row-first order on positions.
    pub open spec fn cmp_spec(&self, other: &Position) -> Ordering {
        if self.1 == other.1 {
            if self.0 < other.0 {
                Ordering::Less
            } else if self.0 == other.0 {
                Ordering::Equal
            } else {
                Ordering::Greater
            }
        } else if self.1 < other.1 {
            Ordering::Less
        } else {
            Ordering::Greater
        }
    }

    /// Compares two positions by row, then by column.
    pub fn cmp(&self, other: &Position) -> (r: Ordering)
        ensures
            r == self.cmp_spec(other),
    {
        if self.1 == other.1 {
            if self.0 < other.0 {
                Ordering::Less
            } else if self.0 == other.0 {
                Ordering::Equal
            } else {
                Ordering::Greater
            }
        } else if self.1 < other.1 {
            Ordering::Less
        } else {
            Ordering::Greater
        }
    }
}

impl PartialEq for Position {
    fn eq(&self, other: &Position) -> (r: bool) {
        match self.cmp(other) {
            Ordering::Equal => true,
            _ => false,
        }
    }
}

impl vstd::std_specs::cmp::PartialEqSpecImpl for Position {
    open spec fn obeys_eq_spec() -> bool {
        true
    }

    open spec fn eq_spec(&self, other: &Position) -> bool {
        self.0 == other.0 && self.1 == other.1
    }
}

impl PartialOrd for Position {
    fn partial_cmp(&self, other: &Position) -> (r: Option<Ordering>) {
        Some(self.cmp(other))
    }
}

impl vstd::std_specs::cmp::PartialOrdSpecImpl for Position {
    open spec fn obeys_partial_cmp_spec() -> bool {
        true
    }

    open spec fn partial_cmp_spec(&self, other: &Position) -> Option<Ordering> {
        Some(self.cmp_spec(other))
    }
}

} // verus!

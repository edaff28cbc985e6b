//! Coordinates on the 8x8 grid and descriptions of candidate moves.

use vstd::prelude::*;

use crate::board::CheckerError;

verus! {

/// Both axes of a playable square lie in `[0, 7]`.
pub open spec fn coord_valid(x: int, y: int) -> bool {
    0 <= x < 8 && 0 <= y < 8
}

/// A (column, row) pair on the 8x8 grid. A value may lie outside the grid
/// (for example after adding a delta to an axis); `check` decides whether it
/// is usable in a board operation.
#[derive(Copy, Clone, Debug, PartialEq, Eq, Structural)]
pub struct Coordinate {
    pub x: usize,
    pub y: usize,
}

impl View for Coordinate {
    type V = (int, int);

    open spec fn view(&self) -> (int, int) {
        (self.x as int, self.y as int)
    }
}

impl Coordinate {
    /// The validity predicate: both axes on the grid.
    pub open spec fn valid(self) -> bool {
        coord_valid(self.x as int, self.y as int)
    }

    /// Succeeds exactly when both axes lie in `[0, 7]`; otherwise reports
    /// this coordinate as invalid.
    pub fn check(&self) -> (r: Result<(), CheckerError>)
        ensures
            match r {
                Ok(()) => self.valid(),
                Err(e) => !self.valid() && e == CheckerError::InvalidCoordinate(*self),
            },
    {
        if self.x >= 8 || self.y >= 8 {
            Err(CheckerError::InvalidCoordinate(*self))
        } else {
            Ok(())
        }
    }
}

/// The mathematical shape of a move: origin, destination, and the squares
/// vacated by capture, all as plain grid positions.
#[verifier::ext_equal]
pub ghost struct SpecMove {
    pub from: (int, int),
    pub to: (int, int),
    pub capturing: Seq<(int, int)>,
}

/// A candidate or resolved move: origin, destination, and the (possibly
/// empty) list of opponent squares vacated as a side effect.
#[derive(Debug)]
pub struct MoveInfo {
    pub from: Coordinate,
    pub to: Coordinate,
    pub capturing: Vec<Coordinate>,
}

impl View for MoveInfo {
    type V = SpecMove;

    open spec fn view(&self) -> SpecMove {
        SpecMove {
            from: self.from@,
            to: self.to@,
            capturing: self.capturing@.map_values(|c: Coordinate| c@),
        }
    }
}

} // verus!

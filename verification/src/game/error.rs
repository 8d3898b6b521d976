//! Errors reported when a request violates the rules of the game.

use vstd::prelude::*;
use vstd::string::StringExecFns;
use crate::text::{decimal, write_decimal};

verus! {

/// Returned when a request violates the game's logic.
#[derive(Debug, Clone, Copy, PartialEq, Eq)]
pub enum GameError {
    /// The id does not belong to any unit in play.
    NonExistingUnit(usize),
    /// The coordinates lie outside the board.
    PositionOutsideTheBoard(usize, usize),
    /// The target is farther away than the unit's stats allow.
    MoveOutsideUnitsReach(usize, usize),
    /// The player cannot place more units.
    AllUnitSlotsUsed,
}

/// The error in words: the variant's name and, in brackets, what it
/// carries.
pub open spec fn game_error_text(e: GameError) -> Seq<char> {
    match e {
        GameError::NonExistingUnit(id) => "NonExistingUnit("@ + decimal(id as nat) + ")"@,
        GameError::PositionOutsideTheBoard(x, y) => "PositionOutsideTheBoard("@ + decimal(
            x as nat,
        ) + ", "@ + decimal(y as nat) + ")"@,
        GameError::MoveOutsideUnitsReach(x, y) => "MoveOutsideUnitsReach("@ + decimal(x as nat)
            + ", "@ + decimal(y as nat) + ")"@,
        GameError::AllUnitSlotsUsed => "AllUnitSlotsUsed"@,
    }
}

impl GameError {
    fn write_pair(name: &str, x: usize, y: usize) -> (text: String)
        ensures
            text@ == name@ + decimal(x as nat) + ", "@ + decimal(y as nat) + ")"@,
    {
        let mut text = String::from_str(name);
        write_decimal(x as u128, &mut text);
        text.append(", ");
        write_decimal(y as u128, &mut text);
        text.append(")");
        text
    }

    /// Says in words which rule was violated.
    pub fn to_string(&self) -> (text: String)
        ensures
            text@ == game_error_text(*self),
    {
        match self {
            GameError::NonExistingUnit(id) => {
                let mut text = String::from_str("NonExistingUnit(");
                write_decimal(*id as u128, &mut text);
                text.append(")");
                text
            },
            GameError::PositionOutsideTheBoard(x, y) => Self::write_pair(
                "PositionOutsideTheBoard(",
                *x,
                *y,
            ),
            GameError::MoveOutsideUnitsReach(x, y) => Self::write_pair(
                "MoveOutsideUnitsReach(",
                *x,
                *y,
            ),
            GameError::AllUnitSlotsUsed => String::from_str("AllUnitSlotsUsed"),
        }
    }
}

} // verus!

//! Players as the game model keeps them.

use vstd::prelude::*;

verus! {

/// One of the players of a game.
pub struct Player {
    /// Index of the player inside the game.
    pub id: u8,
    /// Number of units that the player may still place on the board.
    pub available_units: u32,
    /// Ids of the units that belong to the player.
    pub units: Vec<usize>,
}

/// A player as plain mathematical values.
pub struct PlayerView {
    pub id: u8,
    pub available_units: u32,
    pub units: Seq<usize>,
}

impl View for Player {
    type V = PlayerView;

    open spec fn view(&self) -> PlayerView {
        PlayerView { id: self.id, available_units: self.available_units, units: self.units@ }
    }
}

impl Player {
    /// Creates a player with the given id, the full allowance of units and
    /// none placed yet.
    pub fn new(id: u8) -> (p: Player)
        ensures
            p@ == (PlayerView { id, available_units: 10, units: Seq::empty() }),
    {
        Player { id, available_units: 10, units: Vec::with_capacity(10) }
    }
}

} // verus!

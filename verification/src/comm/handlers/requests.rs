//! The requests that clients send.

use vstd::prelude::*;
use vstd::bytes::{
    spec_u128_to_le_bytes, spec_u32_to_le_bytes, u128_to_le_bytes, u32_to_le_bytes,
};
use crate::agent::PlayerID;
use crate::comm::{Message, MessageId, Payload};
use crate::game::unit::Category;

verus! {

/// The byte that stands for a unit category on the wire.
pub open spec fn category_byte(category: Category) -> u8 {
    match category {
        Category::Cavalry => 0,
        Category::Knight => 1,
        Category::Pickerman => 2,
    }
}

/// The unit category that a byte stands for, if it stands for one.
pub open spec fn category_of(byte: u8) -> Option<Category> {
    if byte == 0 {
        Some(Category::Cavalry)
    } else if byte == 1 {
        Some(Category::Knight)
    } else if byte == 2 {
        Some(Category::Pickerman)
    } else {
        None
    }
}

/// Returns the byte that stands for a unit category on the wire.
pub fn category_to_byte(category: Category) -> (byte: u8)
    ensures
        byte == category_byte(category),
        category_of(byte) == Some(category),
{
    match category {
        Category::Cavalry => 0,
        Category::Knight => 1,
        Category::Pickerman => 2,
    }
}

/// Returns the unit category that a byte stands for, if it stands for one.
pub fn category_from_byte(byte: u8) -> (category: Option<Category>)
    ensures
        category == category_of(byte),
{
    if byte == 0 {
        Some(Category::Cavalry)
    } else if byte == 1 {
        Some(Category::Knight)
    } else if byte == 2 {
        Some(Category::Pickerman)
    } else {
        None
    }
}

/// The handshake with which a connection starts.
pub struct Hello;

impl Message for Hello {
    open spec fn id_spec(&self) -> MessageId {
        0
    }

    open spec fn payload_spec(&self) -> Seq<u8> {
        Seq::empty()
    }

    fn id(&self) -> MessageId {
        0
    }

    fn payload(&self) -> Payload {
        Vec::new()
    }
}

/// Asks for a player of the game.
pub struct RegisterPlayer;

impl Message for RegisterPlayer {
    open spec fn id_spec(&self) -> MessageId {
        1
    }

    open spec fn payload_spec(&self) -> Seq<u8> {
        Seq::empty()
    }

    fn id(&self) -> MessageId {
        1
    }

    fn payload(&self) -> Payload {
        Vec::new()
    }
}

/// Asks for a new unit of the given category at the given position.
pub struct AddUnit {
    pub player_id: PlayerID,
    pub position: (usize, usize),
    pub category: Category,
}

impl Message for AddUnit {
    open spec fn id_spec(&self) -> MessageId {
        1000
    }

    /// The player id in sixteen bytes, each coordinate in four, and the
    /// category in one. A coordinate that four bytes cannot hold is cut
    /// down to its lowest four bytes.
    open spec fn payload_spec(&self) -> Seq<u8> {
        spec_u128_to_le_bytes(self.player_id) + spec_u32_to_le_bytes(self.position.0 as u32)
            + spec_u32_to_le_bytes(self.position.1 as u32) + seq![category_byte(self.category)]
    }

    fn id(&self) -> MessageId {
        1000
    }

    fn payload(&self) -> Payload {
        let mut payload = u128_to_le_bytes(self.player_id);
        let mut x = u32_to_le_bytes(self.position.0 as u32);
        let mut y = u32_to_le_bytes(self.position.1 as u32);
        payload.append(&mut x);
        payload.append(&mut y);
        payload.push(category_to_byte(self.category));
        proof {
            assert(payload@ =~= self.payload_spec());
        }
        payload
    }
}

/// Asks for the units of a player.
pub struct GetUnits {
    pub player_id: PlayerID,
}

impl Message for GetUnits {
    open spec fn id_spec(&self) -> MessageId {
        1001
    }

    open spec fn payload_spec(&self) -> Seq<u8> {
        spec_u128_to_le_bytes(self.player_id)
    }

    fn id(&self) -> MessageId {
        1001
    }

    fn payload(&self) -> Payload {
        u128_to_le_bytes(self.player_id)
    }
}

} // verus!

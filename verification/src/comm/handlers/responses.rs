//! The responses with which the server answers.

use vstd::prelude::*;
use vstd::bytes::{spec_u128_to_le_bytes, spec_u64_to_le_bytes, u128_to_le_bytes, u64_to_le_bytes};
use crate::agent::PlayerID;
use crate::comm::{Message, MessageId, Payload};
use crate::game::unit::Unit;

verus! {

/// Answers the handshake.
pub struct Welcome;

impl Message for Welcome {
    open spec fn id_spec(&self) -> MessageId {
        1
    }

    open spec fn payload_spec(&self) -> Seq<u8> {
        Seq::empty()
    }

    fn id(&self) -> MessageId {
        1
    }

    fn payload(&self) -> Payload {
        Vec::new()
    }
}

/// Tells a client the id of its player.
pub struct PlayerRegistered {
    pub player_id: PlayerID,
}

impl Message for PlayerRegistered {
    open spec fn id_spec(&self) -> MessageId {
        2
    }

    open spec fn payload_spec(&self) -> Seq<u8> {
        spec_u128_to_le_bytes(self.player_id)
    }

    fn id(&self) -> MessageId {
        2
    }

    fn payload(&self) -> Payload {
        u128_to_le_bytes(self.player_id)
    }
}

/// Tells a client the id of the unit that was added.
pub struct UnitAdded {
    pub unit_id: usize,
}

impl Message for UnitAdded {
    open spec fn id_spec(&self) -> MessageId {
        1000
    }

    /// The unit id in eight bytes.
    open spec fn payload_spec(&self) -> Seq<u8> {
        spec_u64_to_le_bytes(self.unit_id as u64)
    }

    fn id(&self) -> MessageId {
        1000
    }

    fn payload(&self) -> Payload {
        u64_to_le_bytes(self.unit_id as u64)
    }
}

/// A unit on the wire: its id and its two coordinates, in eight bytes
/// each.
pub open spec fn unit_bytes(unit: Unit) -> Seq<u8> {
    spec_u64_to_le_bytes(unit.id as u64) + spec_u64_to_le_bytes(unit.position.0 as u64)
        + spec_u64_to_le_bytes(unit.position.1 as u64)
}

/// Some units on the wire, one after the other.
pub open spec fn units_bytes(units: Seq<Unit>) -> Seq<u8>
    decreases units.len(),
{
    if units.len() == 0 {
        Seq::empty()
    } else {
        units_bytes(units.drop_last()) + unit_bytes(units.last())
    }
}

/// Lists the units of a player, as they were when the list was made.
pub struct UnitsList {
    pub units: Vec<Unit>,
}

impl UnitsList {
    /// Makes a list of the given units.
    pub fn new(units: &Vec<&Unit>) -> (list: UnitsList)
        ensures
            list.units@ == units@.map_values(|u: &Unit| *u),
    {
        let mut copies: Vec<Unit> = Vec::new();
        let mut i: usize = 0;
        while i < units.len()
            invariant
                i <= units@.len(),
                copies@ == units@.subrange(0, i as int).map_values(|u: &Unit| *u),
            decreases units@.len() - i,
        {
            copies.push(*units[i]);
            proof {
                assert(copies@ =~= units@.subrange(0, i + 1).map_values(|u: &Unit| *u));
            }
            i = i + 1;
        }
        proof {
            assert(units@.subrange(0, i as int) =~= units@);
        }
        UnitsList { units: copies }
    }
}

impl Message for UnitsList {
    open spec fn id_spec(&self) -> MessageId {
        1001
    }

    /// The number of units in eight bytes, and then the units.
    open spec fn payload_spec(&self) -> Seq<u8> {
        spec_u64_to_le_bytes(self.units@.len() as u64) + units_bytes(self.units@)
    }

    fn id(&self) -> MessageId {
        1001
    }

    fn payload(&self) -> Payload {
        let mut payload = u64_to_le_bytes(self.units.len() as u64);
        let mut i: usize = 0;
        proof {
            assert(self.units@.subrange(0, 0) =~= Seq::<Unit>::empty());
        }
        while i < self.units.len()
            invariant
                i <= self.units@.len(),
                payload@ == spec_u64_to_le_bytes(self.units@.len() as u64) + units_bytes(
                    self.units@.subrange(0, i as int),
                ),
            decreases self.units@.len() - i,
        {
            let mut bytes = Self::unit_to_bytes(&self.units[i]);
            proof {
                assert(self.units@.subrange(0, i + 1).drop_last() =~= self.units@.subrange(
                    0,
                    i as int,
                ));
                assert(self.units@.subrange(0, i + 1).last() == self.units@[i as int]);
            }
            payload.append(&mut bytes);
            i = i + 1;
        }
        proof {
            assert(self.units@.subrange(0, i as int) =~= self.units@);
        }
        payload
    }
}

impl UnitsList {
    /// Writes a unit as it stands on the wire.
    pub fn unit_to_bytes(unit: &Unit) -> (as_bytes: Vec<u8>)
        ensures
            as_bytes@ == unit_bytes(*unit),
    {
        let mut as_bytes = u64_to_le_bytes(unit.id as u64);
        let mut x = u64_to_le_bytes(unit.position.0 as u64);
        let mut y = u64_to_le_bytes(unit.position.1 as u64);
        as_bytes.append(&mut x);
        as_bytes.append(&mut y);
        as_bytes
    }
}

} // verus!

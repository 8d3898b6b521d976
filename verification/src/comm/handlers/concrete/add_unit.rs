//! Placing units on the board.

use vstd::prelude::*;
use vstd::bytes::{spec_u128_from_le_bytes, spec_u32_from_le_bytes, u128_from_le_bytes, u32_from_le_bytes};
use vstd::slice::slice_subrange;
use crate::agent::{Agent, AgentError, AgentView};
use crate::comm::connection::{Context, MSG_HEADER_LEN};
use crate::comm::errors::{Cause, ReadError};
use crate::comm::handlers::requests::{category_from_byte, category_of};
use crate::comm::handlers::{requests, responses, BoxedReqHandler, Builder, DefaultBuilder, HandlerKind};
use crate::comm::{MessageId, MessageRaw};
use crate::game::fresh_unit;

verus! {

/// Length of an `AddUnit` message: the header, the player id, the two
/// coordinates and the category.
pub const ADD_UNIT_LEN: usize = MSG_HEADER_LEN + 16 + 4 + 4 + 1;

/// The cause to report when the agent refuses a request.
pub open spec fn rejection(e: AgentError) -> Cause {
    match e {
        AgentError::UnknownPlayer(id) => Cause::UnknownPlayer(id),
        AgentError::Game(e) => Cause::Game(e),
    }
}

/// Returns the cause to report when the agent refuses a request.
pub fn reject(e: AgentError) -> (cause: Cause)
    ensures
        cause == rejection(e),
{
    match e {
        AgentError::UnknownPlayer(id) => Cause::UnknownPlayer(id),
        AgentError::Game(e) => Cause::Game(e),
    }
}

/// Answers `AddUnit` with the id of the unit that was added.
pub struct Handler;

impl Builder for Handler {
    open spec fn req_id_spec() -> MessageId {
        1000
    }

    open spec fn handler_spec() -> BoxedReqHandler {
        HandlerKind::AddUnit
    }

    fn req_id() -> MessageId {
        1000
    }

    fn build_handler() -> BoxedReqHandler {
        HandlerKind::AddUnit
    }
}

impl DefaultBuilder for Handler {
    type Request = requests::AddUnit;

    type Response = responses::UnitAdded;

    /// Behind the header stand the player id in sixteen bytes, the two
    /// coordinates in four bytes each, and one byte for the category. A
    /// message of another length is refused, and so is a byte that names
    /// no category.
    open spec fn parsed(raw: Seq<u8>) -> Result<requests::AddUnit, ReadError> {
        if raw.len() != ADD_UNIT_LEN {
            Err(
                ReadError {
                    couse: Cause::WrongLength { needed: ADD_UNIT_LEN, actual: raw.len() as usize },
                },
            )
        } else {
            match category_of(raw[34]) {
                None => Err(ReadError { couse: Cause::InvalidCategory(raw[34]) }),
                Some(category) => Ok(
                    requests::AddUnit {
                        player_id: spec_u128_from_le_bytes(raw.subrange(10, 26)),
                        position: (
                            spec_u32_from_le_bytes(raw.subrange(26, 30)) as usize,
                            spec_u32_from_le_bytes(raw.subrange(30, 34)) as usize,
                        ),
                        category,
                    },
                ),
            }
        }
    }

    /// Without a handshake the request is refused. A unit for a player
    /// that is not registered, or at a position outside the board, is
    /// rejected, and the error says which of the two it was. In all these
    /// cases nothing changes. Otherwise the unit is added, and the response
    /// names its id.
    open spec fn handled(
        req: requests::AddUnit,
        ctx: Context,
        agent: AgentView,
        r: Result<responses::UnitAdded, ReadError>,
        ctx_after: Context,
        agent_after: AgentView,
    ) -> bool {
        &&& ctx_after == ctx
        &&& agent_after.player_ids == agent.player_ids
        &&& if !ctx.initialized {
            r == Err::<responses::UnitAdded, ReadError>(
                ReadError { couse: Cause::HandshakeRequired },
            ) && agent_after == agent
        } else {
            match agent.unit_request(req.player_id, req.position) {
                Ok(unit_id) => {
                    &&& r == Ok::<responses::UnitAdded, ReadError>(
                        responses::UnitAdded { unit_id },
                    )
                    &&& agent_after.game == agent.game.with_unit(
                        fresh_unit(
                            unit_id,
                            agent.inner_id(req.player_id)->Some_0 as u8,
                            req.position,
                            req.category,
                        ),
                    )
                },
                Err(e) => r == Err::<responses::UnitAdded, ReadError>(
                    ReadError { couse: rejection(e) },
                ) && agent_after == agent,
            }
        }
    }

    fn req_from_raw(raw: &MessageRaw) -> Result<requests::AddUnit, ReadError> {
        if raw.len() != ADD_UNIT_LEN {
            return Err(
                ReadError::new(Cause::WrongLength { needed: ADD_UNIT_LEN, actual: raw.len() }),
            );
        }
        let bytes = raw.as_slice();
        let player_id = u128_from_le_bytes(slice_subrange(bytes, 10, 26));
        let pos_x = u32_from_le_bytes(slice_subrange(bytes, 26, 30));
        let pos_y = u32_from_le_bytes(slice_subrange(bytes, 30, 34));
        let category_raw = raw[34];
        let category = match category_from_byte(category_raw) {
            Some(category) => category,
            None => {
                return Err(ReadError::new(Cause::InvalidCategory(category_raw)));
            },
        };
        Ok(requests::AddUnit { player_id, position: (pos_x as usize, pos_y as usize), category })
    }

    fn handle_request(req: requests::AddUnit, ctx: &mut Context, agent: &mut Agent) -> Result<
        responses::UnitAdded,
        ReadError,
    > {
        if !ctx.initialized {
            return Err(ReadError::new(Cause::HandshakeRequired));
        }
        match agent.add_unit(req.player_id, req.position, req.category) {
            Ok(val) => Ok(responses::UnitAdded { unit_id: val }),
            Err(e) => Err(ReadError::new(reject(e))),
        }
    }
}

} // verus!

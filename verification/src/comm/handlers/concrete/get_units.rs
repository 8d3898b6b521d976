//! Listing the units of a player.

use vstd::prelude::*;
use vstd::bytes::{spec_u128_from_le_bytes, u128_from_le_bytes};
use vstd::slice::slice_subrange;
use crate::agent::{Agent, AgentView};
use crate::comm::connection::{Context, MSG_HEADER_LEN};
use crate::comm::errors::{Cause, ReadError};
use crate::comm::handlers::concrete::add_unit::{reject, rejection};
use crate::comm::handlers::{requests, responses, BoxedReqHandler, Builder, DefaultBuilder, HandlerKind};
use crate::comm::{MessageId, MessageRaw};
use crate::game::owned_units;

verus! {

/// Length of a `GetUnits` message: the header and the player id.
pub const GET_UNITS_LEN: usize = MSG_HEADER_LEN + 16;

/// Answers `GetUnits` with the list of the player's units.
pub struct Handler;

impl Builder for Handler {
    open spec fn req_id_spec() -> MessageId {
        1001
    }

    open spec fn handler_spec() -> BoxedReqHandler {
        HandlerKind::GetUnits
    }

    fn req_id() -> MessageId {
        1001
    }

    fn build_handler() -> BoxedReqHandler {
        HandlerKind::GetUnits
    }
}

impl DefaultBuilder for Handler {
    type Request = requests::GetUnits;

    type Response = responses::UnitsList;

    /// Behind the header stands the player id in sixteen bytes. A message
    /// of another length is refused.
    open spec fn parsed(raw: Seq<u8>) -> Result<requests::GetUnits, ReadError> {
        if raw.len() != GET_UNITS_LEN {
            Err(
                ReadError {
                    couse: Cause::WrongLength { needed: GET_UNITS_LEN, actual: raw.len() as usize },
                },
            )
        } else {
            Ok(requests::GetUnits { player_id: spec_u128_from_le_bytes(raw.subrange(10, 26)) })
        }
    }

    /// Without a handshake the request is refused, and so it is when no
    /// player is registered under the id. Otherwise the response lists the
    /// units of the player, in the order of their creation. Nothing changes
    /// in any case.
    open spec fn handled(
        req: requests::GetUnits,
        ctx: Context,
        agent: AgentView,
        r: Result<responses::UnitsList, ReadError>,
        ctx_after: Context,
        agent_after: AgentView,
    ) -> bool {
        &&& ctx_after == ctx
        &&& agent_after == agent
        &&& if !ctx.initialized {
            r == Err::<responses::UnitsList, ReadError>(
                ReadError { couse: Cause::HandshakeRequired },
            )
        } else {
            match agent.inner_id(req.player_id) {
                Some(owner) => r matches Ok(resp) && resp.units@ == owned_units(
                    agent.game.units,
                    owner as u8,
                ),
                None => r == Err::<responses::UnitsList, ReadError>(
                    ReadError { couse: Cause::UnknownPlayer(req.player_id) },
                ),
            }
        }
    }

    fn req_from_raw(raw: &MessageRaw) -> Result<requests::GetUnits, ReadError> {
        if raw.len() != GET_UNITS_LEN {
            return Err(
                ReadError::new(Cause::WrongLength { needed: GET_UNITS_LEN, actual: raw.len() }),
            );
        }
        let player_id = u128_from_le_bytes(slice_subrange(raw.as_slice(), 10, 26));
        Ok(requests::GetUnits { player_id })
    }

    fn handle_request(req: requests::GetUnits, ctx: &mut Context, agent: &mut Agent) -> Result<
        responses::UnitsList,
        ReadError,
    > {
        if !ctx.initialized {
            return Err(ReadError::new(Cause::HandshakeRequired));
        }
        match agent.get_units(req.player_id) {
            Ok(units) => Ok(responses::UnitsList::new(&units)),
            Err(e) => Err(ReadError::new(reject(e))),
        }
    }
}

} // verus!

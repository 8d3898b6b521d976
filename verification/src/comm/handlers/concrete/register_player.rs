//! Registration of players.

use vstd::prelude::*;
use crate::agent::{Agent, AgentView};
use crate::comm::connection::{Context, MSG_HEADER_LEN};
use crate::comm::errors::{Cause, ReadError};
use crate::comm::handlers::{requests, responses, BoxedReqHandler, Builder, DefaultBuilder, HandlerKind};
use crate::comm::{MessageId, MessageRaw};

verus! {

/// Answers `RegisterPlayer` with the id of a new player.
pub struct Handler;

impl Builder for Handler {
    open spec fn req_id_spec() -> MessageId {
        1
    }

    open spec fn handler_spec() -> BoxedReqHandler {
        HandlerKind::RegisterPlayer
    }

    fn req_id() -> MessageId {
        1
    }

    fn build_handler() -> BoxedReqHandler {
        HandlerKind::RegisterPlayer
    }
}

impl DefaultBuilder for Handler {
    type Request = requests::RegisterPlayer;

    type Response = responses::PlayerRegistered;

    /// The request is a header and nothing else.
    open spec fn parsed(raw: Seq<u8>) -> Result<requests::RegisterPlayer, ReadError> {
        if raw.len() != MSG_HEADER_LEN {
            Err(
                ReadError {
                    couse: Cause::WrongLength { needed: MSG_HEADER_LEN, actual: raw.len() as usize },
                },
            )
        } else {
            Ok(requests::RegisterPlayer)
        }
    }

    /// Without a handshake the request is refused, and so it is when every
    /// player of the game is registered; nothing changes then. Otherwise a
    /// player is registered, and the response names its id.
    open spec fn handled(
        req: requests::RegisterPlayer,
        ctx: Context,
        agent: AgentView,
        r: Result<responses::PlayerRegistered, ReadError>,
        ctx_after: Context,
        agent_after: AgentView,
    ) -> bool {
        &&& ctx_after == ctx
        &&& if !ctx.initialized {
            r == Err::<responses::PlayerRegistered, ReadError>(
                ReadError { couse: Cause::HandshakeRequired },
            ) && agent_after == agent
        } else if !agent.has_room() {
            r == Err::<responses::PlayerRegistered, ReadError>(
                ReadError { couse: Cause::AllPlayersRegistered },
            ) && agent_after == agent
        } else {
            r matches Ok(resp) && agent_after == agent.after_registration(resp.player_id)
        }
    }

    fn req_from_raw(raw: &MessageRaw) -> Result<requests::RegisterPlayer, ReadError> {
        if raw.len() != MSG_HEADER_LEN {
            Err(ReadError::new(Cause::WrongLength { needed: MSG_HEADER_LEN, actual: raw.len() }))
        } else {
            Ok(requests::RegisterPlayer {  })
        }
    }

    fn handle_request(
        _req: requests::RegisterPlayer,
        ctx: &mut Context,
        agent: &mut Agent,
    ) -> Result<responses::PlayerRegistered, ReadError> {
        if !ctx.initialized {
            return Err(ReadError::new(Cause::HandshakeRequired));
        }
        match agent.register_player() {
            None => Err(ReadError::new(Cause::AllPlayersRegistered)),
            Some(val) => Ok(responses::PlayerRegistered { player_id: val }),
        }
    }
}

} // verus!

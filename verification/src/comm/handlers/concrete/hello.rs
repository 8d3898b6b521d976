//! The handshake.

use vstd::prelude::*;
use crate::agent::{Agent, AgentView};
use crate::comm::connection::{Context, MSG_HEADER_LEN};
use crate::comm::errors::{Cause, ReadError};
use crate::comm::handlers::{requests, responses, BoxedReqHandler, Builder, DefaultBuilder, HandlerKind};
use crate::comm::{MessageId, MessageRaw};

verus! {

/// Answers `Hello` with `Welcome` and marks the connection as initialized.
pub struct Handler;

impl Builder for Handler {
    open spec fn req_id_spec() -> MessageId {
        0
    }

    open spec fn handler_spec() -> BoxedReqHandler {
        HandlerKind::Hello
    }

    fn req_id() -> MessageId {
        0
    }

    fn build_handler() -> BoxedReqHandler {
        HandlerKind::Hello
    }
}

impl DefaultBuilder for Handler {
    type Request = requests::Hello;

    type Response = responses::Welcome;

    /// A hello is a header and nothing else.
    open spec fn parsed(raw: Seq<u8>) -> Result<requests::Hello, ReadError> {
        if raw.len() != MSG_HEADER_LEN {
            Err(
                ReadError {
                    couse: Cause::WrongLength { needed: MSG_HEADER_LEN, actual: raw.len() as usize },
                },
            )
        } else {
            Ok(requests::Hello)
        }
    }

    /// A hello is always welcome; from then on the connection is
    /// initialized.
    open spec fn handled(
        req: requests::Hello,
        ctx: Context,
        agent: AgentView,
        r: Result<responses::Welcome, ReadError>,
        ctx_after: Context,
        agent_after: AgentView,
    ) -> bool {
        &&& r == Ok::<responses::Welcome, ReadError>(responses::Welcome)
        &&& ctx_after == (Context { initialized: true, ..ctx })
        &&& agent_after == agent
    }

    fn req_from_raw(raw: &MessageRaw) -> Result<requests::Hello, ReadError> {
        if raw.len() != MSG_HEADER_LEN {
            Err(ReadError::new(Cause::WrongLength { needed: MSG_HEADER_LEN, actual: raw.len() }))
        } else {
            Ok(requests::Hello {  })
        }
    }

    fn handle_request(_req: requests::Hello, ctx: &mut Context, agent: &mut Agent) -> Result<
        responses::Welcome,
        ReadError,
    > {
        ctx.initialized = true;
        Ok(responses::Welcome {  })
    }
}

} // verus!

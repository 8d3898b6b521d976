//! The handlers that answer the requests, and the registry that finds the
//! handler for a message.

pub mod concrete;
pub mod init;
pub mod requests;
pub mod responses;

use std::collections::HashMap;
use vstd::prelude::*;
use vstd::bytes::u32_from_le_bytes;
use vstd::slice::slice_subrange;
use crate::agent::{Agent, AgentView};
use crate::comm::connection::{frame_id, Context, MSG_ID_FIELD_LEN, MSG_SKEY_FIELD_LEN};
use crate::comm::errors::{BadRequestError, Cause, Fault, InternalServerError, ReadError};
use crate::comm::{Message, MessageId, MessageRaw, Payload, Request, Response};

verus! {

/// Why a message was not answered.
pub enum DispatchError {
    /// No handler is registered for the message's id.
    UnknownMessageId(BadRequestError),
    /// The message could not be read as the request that its id names.
    MalformedPayload(BadRequestError),
    /// The request was read, and the handler refused it.
    InternalOrBadRequest(InternalServerError),
}

/// The error for a message whose id no handler is registered for.
pub open spec fn unknown_message(id: MessageId) -> DispatchError {
    DispatchError::UnknownMessageId(
        BadRequestError(Fault::Read(ReadError { couse: Cause::UnknownMessage(id) })),
    )
}

/// The error for a message that could not be read as a request.
pub open spec fn malformed(e: ReadError) -> DispatchError {
    DispatchError::MalformedPayload(BadRequestError(Fault::Read(e)))
}

/// The error for a request that its handler refused.
pub open spec fn refused(e: ReadError) -> DispatchError {
    DispatchError::InternalOrBadRequest(InternalServerError(Fault::Read(e)))
}

/// Any of the responses that the handlers give.
pub enum AnyResponse {
    Welcome(responses::Welcome),
    PlayerRegistered(responses::PlayerRegistered),
    UnitAdded(responses::UnitAdded),
    UnitsList(responses::UnitsList),
}

impl Message for AnyResponse {
    open spec fn id_spec(&self) -> MessageId {
        match self {
            AnyResponse::Welcome(resp) => resp.id_spec(),
            AnyResponse::PlayerRegistered(resp) => resp.id_spec(),
            AnyResponse::UnitAdded(resp) => resp.id_spec(),
            AnyResponse::UnitsList(resp) => resp.id_spec(),
        }
    }

    open spec fn payload_spec(&self) -> Seq<u8> {
        match self {
            AnyResponse::Welcome(resp) => resp.payload_spec(),
            AnyResponse::PlayerRegistered(resp) => resp.payload_spec(),
            AnyResponse::UnitAdded(resp) => resp.payload_spec(),
            AnyResponse::UnitsList(resp) => resp.payload_spec(),
        }
    }

    fn id(&self) -> MessageId {
        match self {
            AnyResponse::Welcome(resp) => resp.id(),
            AnyResponse::PlayerRegistered(resp) => resp.id(),
            AnyResponse::UnitAdded(resp) => resp.id(),
            AnyResponse::UnitsList(resp) => resp.id(),
        }
    }

    fn payload(&self) -> Payload {
        match self {
            AnyResponse::Welcome(resp) => resp.payload(),
            AnyResponse::PlayerRegistered(resp) => resp.payload(),
            AnyResponse::UnitAdded(resp) => resp.payload(),
            AnyResponse::UnitsList(resp) => resp.payload(),
        }
    }
}

/// The handlers that a registry can hold, each named by the request that
/// it answers.
#[derive(Clone, Copy, Debug)]
pub enum HandlerKind {
    Hello,
    RegisterPlayer,
    AddUnit,
    GetUnits,
}

/// What the registry holds for a message id.
pub type BoxedReqHandler = HandlerKind;

/// Names the request that a handler answers and gives the handler to
/// register for it.
pub trait Builder {
    /// The id of the requests that the handler answers.
    spec fn req_id_spec() -> MessageId;

    /// The handler to register.
    spec fn handler_spec() -> BoxedReqHandler;

    /// Returns the id of the requests that the handler answers.
    fn req_id() -> (id: MessageId)
        ensures
            id == Self::req_id_spec(),
    ;

    /// Returns the handler to register.
    fn build_handler() -> (handler: BoxedReqHandler)
        ensures
            handler == Self::handler_spec(),
    ;
}

/// A handler in two phases: first the request is read from the bytes of
/// the message, which touches nothing; then it is carried out on the
/// connection's context and the game.
pub trait DefaultBuilder: Builder {
    type Request: Request;

    type Response: Response;

    /// The request that the bytes of a message hold, or why they hold
    /// none.
    spec fn parsed(raw: Seq<u8>) -> Result<Self::Request, ReadError>;

    /// Whether carrying out `req` on `ctx` and `agent` may give `r` and
    /// leave `ctx_after` and `agent_after`.
    spec fn handled(
        req: Self::Request,
        ctx: Context,
        agent: AgentView,
        r: Result<Self::Response, ReadError>,
        ctx_after: Context,
        agent_after: AgentView,
    ) -> bool;

    /// Reads the request from the bytes of a message.
    fn req_from_raw(raw: &MessageRaw) -> (r: Result<Self::Request, ReadError>)
        ensures
            r == Self::parsed(raw@),
    ;

    /// Carries the request out.
    fn handle_request(req: Self::Request, ctx: &mut Context, agent: &mut Agent) -> (r: Result<
        Self::Response,
        ReadError,
    >)
        requires
            old(agent).wf(),
        ensures
            final(agent).wf(),
            Self::handled(req, *old(ctx), old(agent)@, r, *final(ctx), final(agent)@),
    ;
}

/// Whether `r`, `ctx_after` and `agent_after` may come of answering the
/// message `raw` with the handler `B`. A message that cannot be read is
/// refused as malformed, and nothing changes. A request that the handler
/// refuses is reported as such.
pub open spec fn answered<B: DefaultBuilder>(
    raw: Seq<u8>,
    ctx: Context,
    agent: AgentView,
    r: Result<B::Response, DispatchError>,
    ctx_after: Context,
    agent_after: AgentView,
) -> bool {
    match B::parsed(raw) {
        Err(e) => r == Err::<B::Response, DispatchError>(malformed(e)) && ctx_after == ctx
            && agent_after == agent,
        Ok(req) => match r {
            Ok(resp) => B::handled(req, ctx, agent, Ok(resp), ctx_after, agent_after),
            Err(DispatchError::InternalOrBadRequest(InternalServerError(Fault::Read(e)))) =>
                B::handled(req, ctx, agent, Err(e), ctx_after, agent_after),
            _ => false,
        },
    }
}

/// Answers a message with the handler `B`: reads the request, and carries
/// it out if it could be read.
pub fn answer<B: DefaultBuilder>(raw: &MessageRaw, ctx: &mut Context, agent: &mut Agent) -> (r:
    Result<B::Response, DispatchError>)
    requires
        old(agent).wf(),
    ensures
        final(agent).wf(),
        answered::<B>(raw@, *old(ctx), old(agent)@, r, *final(ctx), final(agent)@),
{
    let req = match B::req_from_raw(raw) {
        Err(e) => {
            return Err(DispatchError::MalformedPayload(BadRequestError::from(e)));
        },
        Ok(val) => val,
    };
    match B::handle_request(req, ctx, agent) {
        Ok(resp) => Ok(resp),
        Err(e) => Err(DispatchError::InternalOrBadRequest(InternalServerError(Fault::Read(e)))),
    }
}

/// What can answer a message on a connection.
pub trait ReqHandler {
    /// Whether `r`, `ctx_after` and `agent_after` may come of answering
    /// the message `raw`.
    spec fn replies(
        &self,
        raw: Seq<u8>,
        ctx: Context,
        agent: AgentView,
        r: Result<AnyResponse, DispatchError>,
        ctx_after: Context,
        agent_after: AgentView,
    ) -> bool;

    /// Answers the message.
    fn handle(&self, raw: &MessageRaw, ctx: &mut Context, agent: &mut Agent) -> (r: Result<
        AnyResponse,
        DispatchError,
    >)
        requires
            old(agent).wf(),
        ensures
            final(agent).wf(),
            self.replies(raw@, *old(ctx), old(agent)@, r, *final(ctx), final(agent)@),
    ;
}

/// Whether `r`, `ctx_after` and `agent_after` may come of answering the
/// message `raw` with the handler that `kind` names.
pub open spec fn kind_replies(
    kind: HandlerKind,
    raw: Seq<u8>,
    ctx: Context,
    agent: AgentView,
    r: Result<AnyResponse, DispatchError>,
    ctx_after: Context,
    agent_after: AgentView,
) -> bool {
    match (kind, r) {
        (HandlerKind::Hello, Ok(AnyResponse::Welcome(resp))) => answered::<
            concrete::hello::Handler,
        >(raw, ctx, agent, Ok(resp), ctx_after, agent_after),
        (HandlerKind::Hello, Err(e)) => answered::<concrete::hello::Handler>(
            raw,
            ctx,
            agent,
            Err(e),
            ctx_after,
            agent_after,
        ),
        (HandlerKind::RegisterPlayer, Ok(AnyResponse::PlayerRegistered(resp))) => answered::<
            concrete::register_player::Handler,
        >(raw, ctx, agent, Ok(resp), ctx_after, agent_after),
        (HandlerKind::RegisterPlayer, Err(e)) => answered::<
            concrete::register_player::Handler,
        >(raw, ctx, agent, Err(e), ctx_after, agent_after),
        (HandlerKind::AddUnit, Ok(AnyResponse::UnitAdded(resp))) => answered::<
            concrete::add_unit::Handler,
        >(raw, ctx, agent, Ok(resp), ctx_after, agent_after),
        (HandlerKind::AddUnit, Err(e)) => answered::<concrete::add_unit::Handler>(
            raw,
            ctx,
            agent,
            Err(e),
            ctx_after,
            agent_after,
        ),
        (HandlerKind::GetUnits, Ok(AnyResponse::UnitsList(resp))) => answered::<
            concrete::get_units::Handler,
        >(raw, ctx, agent, Ok(resp), ctx_after, agent_after),
        (HandlerKind::GetUnits, Err(e)) => answered::<concrete::get_units::Handler>(
            raw,
            ctx,
            agent,
            Err(e),
            ctx_after,
            agent_after,
        ),
        _ => false,
    }
}

impl ReqHandler for HandlerKind {
    open spec fn replies(
        &self,
        raw: Seq<u8>,
        ctx: Context,
        agent: AgentView,
        r: Result<AnyResponse, DispatchError>,
        ctx_after: Context,
        agent_after: AgentView,
    ) -> bool {
        kind_replies(*self, raw, ctx, agent, r, ctx_after, agent_after)
    }

    fn handle(&self, raw: &MessageRaw, ctx: &mut Context, agent: &mut Agent) -> (r: Result<
        AnyResponse,
        DispatchError,
    >) {
        match self {
            HandlerKind::Hello => match answer::<concrete::hello::Handler>(raw, ctx, agent) {
                Ok(resp) => Ok(AnyResponse::Welcome(resp)),
                Err(e) => Err(e),
            },
            HandlerKind::RegisterPlayer => match answer::<concrete::register_player::Handler>(
                raw,
                ctx,
                agent,
            ) {
                Ok(resp) => Ok(AnyResponse::PlayerRegistered(resp)),
                Err(e) => Err(e),
            },
            HandlerKind::AddUnit => match answer::<concrete::add_unit::Handler>(raw, ctx, agent) {
                Ok(resp) => Ok(AnyResponse::UnitAdded(resp)),
                Err(e) => Err(e),
            },
            HandlerKind::GetUnits => match answer::<concrete::get_units::Handler>(
                raw,
                ctx,
                agent,
            ) {
                Ok(resp) => Ok(AnyResponse::UnitsList(resp)),
                Err(e) => Err(e),
            },
        }
    }
}

/// The registry of handlers: at most one for each message id.
pub struct Dispatcher {
    handlers: HashMap<MessageId, BoxedReqHandler>,
}

impl View for Dispatcher {
    type V = Map<MessageId, BoxedReqHandler>;

    closed spec fn view(&self) -> Map<MessageId, BoxedReqHandler> {
        self.handlers@
    }
}

impl Dispatcher {
    /// Creates a registry without handlers.
    pub fn new() -> (d: Dispatcher)
        ensures
            d@ == Map::<MessageId, BoxedReqHandler>::empty(),
    {
        Dispatcher { handlers: HashMap::new() }
    }

    /// Finds the handler for the message and lets it answer. A message
    /// whose id has no handler is refused, and nothing changes. The message
    /// must hold at least its signature and its id.
    pub fn dispatch_from_raw(&self, raw: MessageRaw, ctx: &mut Context, agent: &mut Agent) -> (r:
        Result<AnyResponse, DispatchError>)
        requires
            raw@.len() >= 6,
            old(agent).wf(),
        ensures
            final(agent).wf(),
            !self@.contains_key(frame_id(raw@)) ==> r == Err::<AnyResponse, DispatchError>(
                unknown_message(frame_id(raw@)),
            ) && *final(ctx) == *old(ctx) && final(agent)@ == old(agent)@,
            self@.contains_key(frame_id(raw@)) ==> kind_replies(
                self@[frame_id(raw@)],
                raw@,
                *old(ctx),
                old(agent)@,
                r,
                *final(ctx),
                final(agent)@,
            ),
    {
        broadcast use vstd::std_specs::hash::group_hash_axioms;

        let id = Self::read_id(&raw);
        match self.handlers.get(&id) {
            None => Err(
                DispatchError::UnknownMessageId(
                    BadRequestError::from(ReadError::new(Cause::UnknownMessage(id))),
                ),
            ),
            Some(handler) => handler.handle(&raw, ctx, agent),
        }
    }

    /// Reads the message id from a message that holds at least its
    /// signature and its id.
    pub fn read_id(raw: &MessageRaw) -> (id: MessageId)
        requires
            raw@.len() >= 6,
        ensures
            id == frame_id(raw@),
    {
        u32_from_le_bytes(
            slice_subrange(
                raw.as_slice(),
                MSG_SKEY_FIELD_LEN,
                MSG_SKEY_FIELD_LEN + MSG_ID_FIELD_LEN,
            ),
        )
    }

    /// Registers the handler for the message id, unless the id has a
    /// handler already. Returns whether the handler was registered.
    pub fn register(&mut self, id: MessageId, builder: BoxedReqHandler) -> (registered: bool)
        ensures
            registered == !old(self)@.contains_key(id),
            registered ==> final(self)@ == old(self)@.insert(id, builder),
            !registered ==> final(self)@ == old(self)@,
    {
        broadcast use vstd::std_specs::hash::group_hash_axioms;

        if self.handlers.contains_key(&id) {
            false
        } else {
            self.handlers.insert(id, builder);
            true
        }
    }
}

/// Until a connection has said hello, every other request is refused and
/// changes nothing.
pub proof fn lemma_handshake_comes_first(
    kind: HandlerKind,
    raw: Seq<u8>,
    ctx: Context,
    agent: AgentView,
    r: Result<AnyResponse, DispatchError>,
    ctx_after: Context,
    agent_after: AgentView,
)
    requires
        kind_replies(kind, raw, ctx, agent, r, ctx_after, agent_after),
        !ctx.initialized,
        !(kind is Hello),
    ensures
        r is Err,
        ctx_after == ctx,
        agent_after == agent,
{
}

/// Only a hello changes what is known of a connection, and all it does is
/// to mark the connection as initialized; the game is not touched by it.
pub proof fn lemma_only_hello_initializes(
    kind: HandlerKind,
    raw: Seq<u8>,
    ctx: Context,
    agent: AgentView,
    r: Result<AnyResponse, DispatchError>,
    ctx_after: Context,
    agent_after: AgentView,
)
    requires
        kind_replies(kind, raw, ctx, agent, r, ctx_after, agent_after),
    ensures
        ctx_after.id == ctx.id,
        ctx_after != ctx ==> kind is Hello && r is Ok && ctx_after.initialized,
        kind is Hello ==> agent_after == agent,
{
}

} // verus!

//! The request dispatcher: finds the handler that answers a request.

use std::collections::HashMap;
use vstd::prelude::*;
use super::requests::AnyRequest;
use super::responses::welcome::{welcome, welcomed, Resp};
use super::responses;
use super::RequestId;

verus! {

/// The handlers that a dispatcher can hold, each named by the response
/// that it gives.
#[derive(Clone, Copy, Debug)]
pub enum HandlerKind {
    Welcome,
}

/// What the dispatcher holds for a request id.
pub type BoxedReqHandler = HandlerKind;

/// The response that the handler gives to the request, if it gives one.
pub open spec fn response_of(kind: HandlerKind, req: AnyRequest) -> Option<Resp> {
    match kind {
        HandlerKind::Welcome => welcomed(req),
    }
}

/// What answers a request; no response is given to a request that the
/// handler does not understand.
pub trait RequestHandler {
    /// The response to the request, if there is one.
    spec fn respond_spec(&self, req: AnyRequest) -> Option<Resp>;

    /// Answers the request.
    fn respond(&self, req: AnyRequest) -> (r: Option<Resp>)
        ensures
            r == self.respond_spec(req),
    ;
}

impl RequestHandler for HandlerKind {
    open spec fn respond_spec(&self, req: AnyRequest) -> Option<Resp> {
        response_of(*self, req)
    }

    fn respond(&self, req: AnyRequest) -> (r: Option<Resp>) {
        match self {
            HandlerKind::Welcome => welcome(req),
        }
    }
}

/// What a response type says of itself so that its handler can be
/// registered with the dispatcher.
pub trait Registerable {
    /// The id of the request that the response answers.
    spec fn request_id_spec() -> RequestId;

    /// The handler that gives the response.
    spec fn request_handler_spec() -> BoxedReqHandler;

    /// Returns the id of the request that the response answers.
    fn request_id() -> (id: RequestId)
        ensures
            id == Self::request_id_spec(),
    ;

    /// Returns the handler that gives the response.
    fn request_handler() -> (handler: BoxedReqHandler)
        ensures
            handler == Self::request_handler_spec(),
    ;
}

/// Holds the handler of each request id.
pub struct RequestDispatcher {
    pub handlers: HashMap<RequestId, BoxedReqHandler>,
}

impl RequestDispatcher {
    /// Creates a dispatcher in which the handler of every response is
    /// registered.
    pub fn new() -> (rd: RequestDispatcher)
        ensures
            rd.handlers@ == Map::<RequestId, BoxedReqHandler>::empty().insert(
                0,
                HandlerKind::Welcome,
            ),
    {
        let mut rd = RequestDispatcher { handlers: HashMap::new() };
        let registered = rd.register(
            responses::welcome::Resp::request_id(),
            responses::welcome::Resp::request_handler(),
        );
        assert(registered);
        rd
    }

    /// Registers the handler for the request id, unless the id has a
    /// handler already. Returns whether the handler was registered.
    pub fn register(&mut self, id: RequestId, builder: BoxedReqHandler) -> (registered: bool)
        ensures
            registered == !old(self).handlers@.contains_key(id),
            registered ==> final(self).handlers@ == old(self).handlers@.insert(id, builder),
            !registered ==> final(self).handlers@ == old(self).handlers@,
    {
        broadcast use vstd::std_specs::hash::group_hash_axioms;

        if self.handlers.contains_key(&id) {
            false
        } else {
            self.handlers.insert(id, builder);
            true
        }
    }

    /// Replaces the handler of the request id, if the id has one. Returns
    /// whether it had.
    pub fn overregister(&mut self, id: RequestId, builder: BoxedReqHandler) -> (replaced: bool)
        ensures
            replaced == old(self).handlers@.contains_key(id),
            replaced ==> final(self).handlers@ == old(self).handlers@.insert(id, builder),
            !replaced ==> final(self).handlers@ == old(self).handlers@,
    {
        broadcast use vstd::std_specs::hash::group_hash_axioms;

        if self.handlers.contains_key(&id) {
            self.handlers.insert(id, builder);
            true
        } else {
            false
        }
    }

    /// Registers the handler for the request id, whether or not the id has
    /// a handler already.
    pub fn force_register(&mut self, id: RequestId, builder: BoxedReqHandler)
        ensures
            final(self).handlers@ == old(self).handlers@.insert(id, builder),
    {
        broadcast use vstd::std_specs::hash::group_hash_axioms;

        if self.handlers.contains_key(&id) {
            self.overregister(id, builder);
        } else {
            self.register(id, builder);
        }
    }
}

} // verus!

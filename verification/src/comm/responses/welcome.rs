//! The response to a hello.

use vstd::prelude::*;
use crate::comm::helpers;
use crate::comm::request_dispatcher::{BoxedReqHandler, Registerable};
use crate::comm::requests::AnyRequest;
use crate::comm::{Message, Payload, RequestId, ResponseId};

verus! {

/// Welcomes a client that has said hello.
pub struct Resp;

impl Message for Resp {
    open spec fn id_spec(&self) -> ResponseId {
        1
    }

    open spec fn payload_spec(&self) -> Seq<u8> {
        Seq::empty()
    }

    fn id(&self) -> ResponseId {
        1
    }

    fn payload(&self) -> Payload {
        Vec::new()
    }
}

/// The response to a request, if the request is a hello.
pub open spec fn welcomed(req: AnyRequest) -> Option<Resp> {
    match req {
        AnyRequest::Hello(_) => Some(Resp),
        _ => None,
    }
}

/// Welcomes a hello, and refuses any other request.
pub fn welcome(req: AnyRequest) -> (r: Option<Resp>)
    ensures
        r == welcomed(req),
{
    match helpers::as_ref(&req) {
        None => None,
        Some(_) => Some(Resp {  }),
    }
}

impl Registerable for Resp {
    open spec fn request_id_spec() -> RequestId {
        0
    }

    open spec fn request_handler_spec() -> BoxedReqHandler {
        BoxedReqHandler::Welcome
    }

    fn request_id() -> RequestId {
        0
    }

    fn request_handler() -> BoxedReqHandler {
        BoxedReqHandler::Welcome
    }
}

} // verus!

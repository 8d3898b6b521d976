//! The requests that the request factory builds.

pub mod hello;

use vstd::prelude::*;
use super::factory::{BoxedReqBuilder, Registerable};
use super::{Message, MessageId, Payload, RequestId};

verus! {

/// A request without content that stands for any request.
pub struct Req;

impl Message for Req {
    open spec fn id_spec(&self) -> MessageId {
        0
    }

    open spec fn payload_spec(&self) -> Seq<u8> {
        Seq::empty()
    }

    fn id(&self) -> MessageId {
        0
    }

    fn payload(&self) -> Payload {
        Vec::new()
    }
}

impl Registerable for Req {
    open spec fn id_spec() -> RequestId {
        0
    }

    open spec fn builder_spec() -> BoxedReqBuilder {
        BoxedReqBuilder::Plain
    }

    fn id() -> RequestId {
        0
    }

    fn builder() -> BoxedReqBuilder {
        BoxedReqBuilder::Plain
    }
}

/// Any of the requests that the request factory builds.
pub enum AnyRequest {
    Plain(Req),
    Hello(hello::Req),
}

impl Message for AnyRequest {
    open spec fn id_spec(&self) -> MessageId {
        match self {
            AnyRequest::Plain(req) => req.id_spec(),
            AnyRequest::Hello(req) => req.id_spec(),
        }
    }

    open spec fn payload_spec(&self) -> Seq<u8> {
        match self {
            AnyRequest::Plain(req) => req.payload_spec(),
            AnyRequest::Hello(req) => req.payload_spec(),
        }
    }

    fn id(&self) -> MessageId {
        match self {
            AnyRequest::Plain(req) => req.id(),
            AnyRequest::Hello(req) => req.id(),
        }
    }

    fn payload(&self) -> Payload {
        match self {
            AnyRequest::Plain(req) => req.payload(),
            AnyRequest::Hello(req) => req.payload(),
        }
    }
}

} // verus!

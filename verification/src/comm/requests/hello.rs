//! The hello request.

use vstd::prelude::*;
use crate::comm::factory::{BoxedReqBuilder, Registerable};
use crate::comm::{Message, MessageId, Payload, RequestId};

verus! {

/// The request with which a client greets the server.
pub struct Req;

impl Message for Req {
    open spec fn id_spec(&self) -> MessageId {
        0
    }

    open spec fn payload_spec(&self) -> Seq<u8> {
        Seq::empty()
    }

    fn id(&self) -> MessageId {
        0
    }

    fn payload(&self) -> Payload {
        Vec::new()
    }
}

impl Registerable for Req {
    open spec fn id_spec() -> RequestId {
        0
    }

    open spec fn builder_spec() -> BoxedReqBuilder {
        BoxedReqBuilder::Hello
    }

    fn id() -> RequestId {
        0
    }

    fn builder() -> BoxedReqBuilder {
        BoxedReqBuilder::Hello
    }
}

} // verus!

//! The request factory: builds requests from the bytes of messages.

use std::collections::HashMap;
use byteorder::{ByteOrder, LittleEndian};
use vstd::prelude::*;
use vstd::bytes::spec_u32_from_le_bytes;
use vstd::slice::slice_subrange;
use super::connection::frame_id;
use super::errors::{Cause, ReadError};
use super::requests::{hello, AnyRequest, Req};
use super::{RequestId, RequestRaw};

verus! {

/// The builders that a factory can hold, each named by the request that
/// it builds.
#[derive(Clone, Copy, Debug)]
pub enum BuilderKind {
    Plain,
    Hello,
}

/// What the factory holds for a request id.
pub type BoxedReqBuilder = BuilderKind;

/// What a request type says of itself so that it can be registered with
/// the factory.
pub trait Registerable {
    /// The id of the request.
    spec fn id_spec() -> RequestId;

    /// The builder of the request.
    spec fn builder_spec() -> BoxedReqBuilder;

    /// Returns the id of the request.
    fn id() -> (id: RequestId)
        ensures
            id == Self::id_spec(),
    ;

    /// Returns the builder of the request.
    fn builder() -> (builder: BoxedReqBuilder)
        ensures
            builder == Self::builder_spec(),
    ;
}

/// The request that the builder makes of the bytes of a message. A hello
/// and a plain request have no content, so every message gives one.
pub open spec fn built(kind: BuilderKind, raw: Seq<u8>) -> Option<AnyRequest> {
    match kind {
        BuilderKind::Plain => Some(AnyRequest::Plain(Req)),
        BuilderKind::Hello => Some(AnyRequest::Hello(hello::Req)),
    }
}

/// What builds a request from the bytes of a message; nothing is built
/// when the bytes cannot be read.
pub trait RequestBuilder {
    /// The request that the bytes hold, if they hold one.
    spec fn build_spec(&self, raw: Seq<u8>) -> Option<AnyRequest>;

    /// Builds the request.
    fn build(&self, raw: RequestRaw) -> (r: Option<AnyRequest>)
        ensures
            r == self.build_spec(raw@),
    ;
}

impl RequestBuilder for BuilderKind {
    open spec fn build_spec(&self, raw: Seq<u8>) -> Option<AnyRequest> {
        built(*self, raw)
    }

    fn build(&self, raw: RequestRaw) -> (r: Option<AnyRequest>) {
        match self {
            BuilderKind::Plain => Some(AnyRequest::Plain(Req {  })),
            BuilderKind::Hello => Some(AnyRequest::Hello(hello::Req {  })),
        }
    }
}

/// Reads a `u32` from the first four bytes of `buf`, the lowest byte
/// first, with `byteorder::LittleEndian::read_u32`. That function panics
/// on fewer than four bytes, which the precondition excludes.
#[verifier::external_body]
fn read_u32_le(buf: &[u8]) -> (value: u32)
    requires
        buf@.len() >= 4,
    ensures
        value == spec_u32_from_le_bytes(buf@.subrange(0, 4)),
{
    LittleEndian::read_u32(buf)
}

/// Builds requests from the bytes of messages, with the builder that is
/// registered for the message's id.
pub struct RequestFactory {
    /// Maps a request id to the builder of the request.
    req_builders: HashMap<RequestId, BoxedReqBuilder>,
}

impl View for RequestFactory {
    type V = Map<RequestId, BoxedReqBuilder>;

    closed spec fn view(&self) -> Map<RequestId, BoxedReqBuilder> {
        self.req_builders@
    }
}

impl RequestFactory {
    /// Creates a factory without builders.
    pub fn new() -> (f: RequestFactory)
        ensures
            f@ == Map::<RequestId, BoxedReqBuilder>::empty(),
    {
        RequestFactory { req_builders: HashMap::new() }
    }

    /// Builds the request that a message holds. Fails when no builder is
    /// registered for the message's id, or the builder cannot read the
    /// message. The message must hold at least its signature and its id.
    pub fn from_raw(&self, raw: RequestRaw) -> (r: Result<AnyRequest, ReadError>)
        requires
            raw@.len() >= 6,
        ensures
            !self@.contains_key(frame_id(raw@)) ==> r == Err::<AnyRequest, ReadError>(
                ReadError { couse: Cause::UnknownMessage(frame_id(raw@)) },
            ),
            self@.contains_key(frame_id(raw@)) ==> r == match built(
                self@[frame_id(raw@)],
                raw@,
            ) {
                Some(req) => Ok::<AnyRequest, ReadError>(req),
                None => Err::<AnyRequest, ReadError>(
                    ReadError { couse: Cause::HandlerFailed(frame_id(raw@)) },
                ),
            },
    {
        broadcast use vstd::std_specs::hash::group_hash_axioms;

        let id = Self::read_id(&raw);
        match self.req_builders.get(&id) {
            None => Err(ReadError::new(Cause::UnknownMessage(id))),
            Some(builder) => {
                match builder.build(raw) {
                    None => Err(ReadError::new(Cause::HandlerFailed(id))),
                    Some(val) => Ok(val),
                }
            },
        }
    }

    /// Reads the message id from a message that holds at least its
    /// signature and its id.
    pub fn read_id(raw: &RequestRaw) -> (id: RequestId)
        requires
            raw@.len() >= 6,
        ensures
            id == frame_id(raw@),
    {
        let field = slice_subrange(raw.as_slice(), 2, 6);
        proof {
            assert(field@.subrange(0, 4) =~= raw@.subrange(2, 6));
        }
        read_u32_le(field)
    }

    /// Registers the builder for the request id, unless the id has a
    /// builder already. Returns whether the builder was registered.
    pub fn register(&mut self, id: RequestId, builder: BoxedReqBuilder) -> (registered: bool)
        ensures
            registered == !old(self)@.contains_key(id),
            registered ==> final(self)@ == old(self)@.insert(id, builder),
            !registered ==> final(self)@ == old(self)@,
    {
        broadcast use vstd::std_specs::hash::group_hash_axioms;

        if self.req_builders.contains_key(&id) {
            false
        } else {
            self.req_builders.insert(id, builder);
            true
        }
    }

    /// Replaces the builder of the request id, if the id has one. Returns
    /// whether it had.
    pub fn overregister(&mut self, id: RequestId, builder: BoxedReqBuilder) -> (replaced: bool)
        ensures
            replaced == old(self)@.contains_key(id),
            replaced ==> final(self)@ == old(self)@.insert(id, builder),
            !replaced ==> final(self)@ == old(self)@,
    {
        broadcast use vstd::std_specs::hash::group_hash_axioms;

        if self.req_builders.contains_key(&id) {
            self.req_builders.insert(id, builder);
            true
        } else {
            false
        }
    }

    /// Registers the builder for the request id, whether or not the id has
    /// a builder already.
    pub fn force_register(&mut self, id: RequestId, builder: BoxedReqBuilder)
        ensures
            final(self)@ == old(self)@.insert(id, builder),
    {
        broadcast use vstd::std_specs::hash::group_hash_axioms;

        if self.req_builders.contains_key(&id) {
            self.overregister(id, builder);
        } else {
            self.register(id, builder);
        }
    }
}

} // verus!

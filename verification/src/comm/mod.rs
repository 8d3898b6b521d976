//! Communication with the clients: messages, their framing on the wire,
//! and the handlers that answer them.

pub mod connection;
pub mod errors;
pub mod factory;
pub mod factory_init;
pub mod handlers;
pub mod helpers;
pub mod request_dispatcher;
pub mod requests;
pub mod responses;

use vstd::prelude::*;

verus! {

/// All the bytes of one message, header included.
pub type MessageRaw = Vec<u8>;

/// The number by which a kind of message is identified.
pub type MessageId = u32;

/// The bytes of a message behind its header.
pub type Payload = Vec<u8>;

/// All the bytes of one request, header included.
pub type RequestRaw = Vec<u8>;

/// The number by which a kind of request is identified.
pub type RequestId = u32;

/// The number by which a kind of response is identified.
pub type ResponseId = u32;

/// What every message offers: its identifier and its payload.
pub trait Message {
    /// The identifier of the message's kind.
    spec fn id_spec(&self) -> MessageId;

    /// The bytes that the message carries.
    spec fn payload_spec(&self) -> Seq<u8>;

    /// Returns the identifier of the message's kind.
    fn id(&self) -> (id: MessageId)
        ensures
            id == self.id_spec(),
    ;

    /// Returns the bytes that the message carries.
    fn payload(&self) -> (payload: Payload)
        ensures
            payload@ == self.payload_spec(),
    ;
}

/// A message that a client sends to the server.
pub trait Request: Message {

}

impl<T: Message> Request for T {

}

/// A message with which the server answers.
pub trait Response: Message {

}

impl<T: Message> Response for T {

}

} // verus!

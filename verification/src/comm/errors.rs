//! The errors that reading and answering a request can end in.

use vstd::prelude::*;
use vstd::std_specs::convert::FromSpecImpl;
use vstd::string::StringExecFns;
use crate::text::{byte_list, decimal, write_byte_list, write_decimal};
use super::MessageId;
use crate::agent::PlayerID;
use crate::game::error::{game_error_text, GameError};

verus! {

/// What went wrong while a message was read or handled.
pub enum Cause {
    /// The socket reported an error; its text is kept.
    Transport(String),
    /// More bytes arrived than the header announced.
    OverRead { expected: u64, read: usize },
    /// No handler is registered for the message id.
    UnknownMessage(MessageId),
    /// The handler registered for the message id gave no response.
    HandlerFailed(MessageId),
    /// The message does not have the length that its kind demands.
    WrongLength { needed: usize, actual: usize },
    /// The byte does not name a unit category.
    InvalidCategory(u8),
    /// The connection has not said hello yet.
    HandshakeRequired,
    /// Every player of the game is registered already.
    AllPlayersRegistered,
    /// No player is registered under the id.
    UnknownPlayer(PlayerID),
    /// The game refused the request.
    Game(GameError),
    /// Anything else, in words.
    Other(String),
}

/// Returned when a message could not be read or handled.
pub struct ReadError {
    pub couse: Cause,
}

impl ReadError {
    /// An error with the given cause.
    pub fn new(couse: Cause) -> (e: ReadError)
        ensures
            e.couse == couse,
    {
        ReadError { couse }
    }
}

impl From<String> for ReadError {
    fn from(couse: String) -> (e: ReadError) {
        ReadError { couse: Cause::Other(couse) }
    }
}

impl FromSpecImpl<String> for ReadError {
    open spec fn obeys_from_spec() -> bool {
        true
    }

    open spec fn from_spec(couse: String) -> ReadError {
        ReadError { couse: Cause::Other(couse) }
    }
}

/// Returned when a message does not start with the protocol's signature.
pub struct HeaderValidationError {
    /// The signature.
    pub expected: Vec<u8>,
    /// The bytes that were read in its place.
    pub actual: Vec<u8>,
}

/// Returned when the client closed the connection.
pub struct ConnectionSevered;

/// What a failed request is blamed on.
pub enum Fault {
    Header(HeaderValidationError),
    Severed(ConnectionSevered),
    Read(ReadError),
}

/// Errors that the client caused, and a severed connection.
pub struct BadRequestError(pub Fault);

/// Errors that arose inside the server.
pub struct InternalServerError(pub Fault);

impl BadRequestError {
    /// What the error is blamed on.
    pub fn cause(&self) -> (fault: &Fault)
        ensures
            *fault == self.0,
    {
        &self.0
    }
}

impl InternalServerError {
    /// What the error is blamed on.
    pub fn cause(&self) -> (fault: &Fault)
        ensures
            *fault == self.0,
    {
        &self.0
    }
}

impl From<HeaderValidationError> for BadRequestError {
    fn from(err: HeaderValidationError) -> (e: BadRequestError) {
        BadRequestError(Fault::Header(err))
    }
}

impl FromSpecImpl<HeaderValidationError> for BadRequestError {
    open spec fn obeys_from_spec() -> bool {
        true
    }

    open spec fn from_spec(err: HeaderValidationError) -> BadRequestError {
        BadRequestError(Fault::Header(err))
    }
}

impl From<ConnectionSevered> for BadRequestError {
    fn from(err: ConnectionSevered) -> (e: BadRequestError) {
        BadRequestError(Fault::Severed(err))
    }
}

impl FromSpecImpl<ConnectionSevered> for BadRequestError {
    open spec fn obeys_from_spec() -> bool {
        true
    }

    open spec fn from_spec(err: ConnectionSevered) -> BadRequestError {
        BadRequestError(Fault::Severed(err))
    }
}

impl From<ReadError> for BadRequestError {
    fn from(err: ReadError) -> (e: BadRequestError) {
        BadRequestError(Fault::Read(err))
    }
}

impl FromSpecImpl<ReadError> for BadRequestError {
    open spec fn obeys_from_spec() -> bool {
        true
    }

    open spec fn from_spec(err: ReadError) -> BadRequestError {
        BadRequestError(Fault::Read(err))
    }
}

/// The cause of an error in words.
pub open spec fn cause_text(cause: Cause) -> Seq<char> {
    match cause {
        Cause::Transport(text) => text@,
        Cause::OverRead { expected, read } =>
            "read more bytes than specified in mess len. Expected: "@ + decimal(expected as nat)
                + ", Read: "@ + decimal(read as nat),
        Cause::UnknownMessage(id) => "Mess id ("@ + decimal(id as nat)
            + ") doesn't match any of registered ones."@,
        Cause::HandlerFailed(id) => "Req handler for message with id "@ + decimal(id as nat)
            + " returned None"@,
        Cause::WrongLength { needed, actual } => "Message len is incorrect. Expected: "@
            + decimal(needed as nat) + ". Actual: "@ + decimal(actual as nat) + "."@,
        Cause::InvalidCategory(byte) => "invalid unit category: "@ + decimal(byte as nat),
        Cause::HandshakeRequired => "Handshake is required to register as a player"@,
        Cause::AllPlayersRegistered => "All players already registered!"@,
        Cause::UnknownPlayer(id) => "No player is registered as "@ + decimal(id as nat),
        Cause::Game(e) => game_error_text(e),
        Cause::Other(text) => text@,
    }
}

/// A header error in words.
pub open spec fn header_error_text(expected: Seq<u8>, actual: Seq<u8>) -> Seq<char> {
    "Invalid message header: (expected "@ + byte_list(expected) + ", got "@ + byte_list(actual)
        + ")"@
}

/// What a failed request is blamed on, in words.
pub open spec fn fault_text(fault: Fault) -> Seq<char> {
    match fault {
        Fault::Header(e) => header_error_text(e.expected@, e.actual@),
        Fault::Severed(_) => "Client severed connection"@,
        Fault::Read(e) => "Read error "@ + cause_text(e.couse),
    }
}

impl Cause {
    /// Says in words what went wrong.
    pub fn to_string(&self) -> (text: String)
        ensures
            text@ == cause_text(*self),
    {
        match self {
            Cause::Transport(text) => text.clone(),
            Cause::OverRead { expected, read } => {
                let mut text = String::from_str(
                    "read more bytes than specified in mess len. Expected: ",
                );
                write_decimal(*expected as u128, &mut text);
                text.append(", Read: ");
                write_decimal(*read as u128, &mut text);
                text
            },
            Cause::UnknownMessage(id) => {
                let mut text = String::from_str("Mess id (");
                write_decimal(*id as u128, &mut text);
                text.append(") doesn't match any of registered ones.");
                text
            },
            Cause::HandlerFailed(id) => {
                let mut text = String::from_str("Req handler for message with id ");
                write_decimal(*id as u128, &mut text);
                text.append(" returned None");
                text
            },
            Cause::WrongLength { needed, actual } => {
                let mut text = String::from_str("Message len is incorrect. Expected: ");
                write_decimal(*needed as u128, &mut text);
                text.append(". Actual: ");
                write_decimal(*actual as u128, &mut text);
                text.append(".");
                text
            },
            Cause::InvalidCategory(byte) => {
                let mut text = String::from_str("invalid unit category: ");
                write_decimal(*byte as u128, &mut text);
                text
            },
            Cause::HandshakeRequired => String::from_str(
                "Handshake is required to register as a player",
            ),
            Cause::AllPlayersRegistered => String::from_str("All players already registered!"),
            Cause::UnknownPlayer(id) => {
                let mut text = String::from_str("No player is registered as ");
                write_decimal(*id, &mut text);
                text
            },
            Cause::Game(e) => e.to_string(),
            Cause::Other(text) => text.clone(),
        }
    }
}

impl ReadError {
    /// Says in words what went wrong.
    pub fn to_string(&self) -> (text: String)
        ensures
            text@ == "Read error "@ + cause_text(self.couse),
    {
        let mut text = String::from_str("Read error ");
        let cause = self.couse.to_string();
        text.append(cause.as_str());
        text
    }
}

impl ConnectionSevered {
    /// Says in words what went wrong.
    pub fn to_string(&self) -> (text: String)
        ensures
            text@ == "Client severed connection"@,
    {
        String::from_str("Client severed connection")
    }
}

impl HeaderValidationError {
    /// Says in words what went wrong: names the signature and the bytes
    /// that were read in its place.
    pub fn to_string(&self) -> (text: String)
        ensures
            text@ == header_error_text(self.expected@, self.actual@),
    {
        let mut text = String::from_str("Invalid message header: (expected ");
        write_byte_list(&self.expected, &mut text);
        text.append(", got ");
        write_byte_list(&self.actual, &mut text);
        text.append(")");
        text
    }
}

impl Fault {
    /// Says in words what the failed request is blamed on.
    pub fn to_string(&self) -> (text: String)
        ensures
            text@ == fault_text(*self),
    {
        match self {
            Fault::Header(e) => e.to_string(),
            Fault::Severed(e) => e.to_string(),
            Fault::Read(e) => e.to_string(),
        }
    }
}

impl BadRequestError {
    /// Says in words what went wrong.
    pub fn to_string(&self) -> (text: String)
        ensures
            text@ == "Bad request: "@ + fault_text(self.0),
    {
        let mut text = String::from_str("Bad request: ");
        let fault = self.0.to_string();
        text.append(fault.as_str());
        text
    }
}

impl InternalServerError {
    /// Says in words what went wrong.
    pub fn to_string(&self) -> (text: String)
        ensures
            text@ == "Internal server error: "@ + fault_text(self.0),
    {
        let mut text = String::from_str("Internal server error: ");
        let fault = self.0.to_string();
        text.append(fault.as_str());
        text
    }
}

} // verus!

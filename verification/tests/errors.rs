use std::cmp::Ordering;

use glib::comm::errors::{
    BadRequestError, Cause, ConnectionSevered, Fault, HeaderValidationError, InternalServerError,
    ReadError,
};
use glib::game::error::GameError;
use glib::game::unit::MovingWrapper;

#[test]
fn game_errors_say_what_they_carry() {
    assert_eq!(GameError::NonExistingUnit(5).to_string(), "NonExistingUnit(5)");
    assert_eq!(
        GameError::PositionOutsideTheBoard(11, 20).to_string(),
        "PositionOutsideTheBoard(11, 20)"
    );
    assert_eq!(
        GameError::MoveOutsideUnitsReach(49, 0).to_string(),
        "MoveOutsideUnitsReach(49, 0)"
    );
    assert_eq!(GameError::AllUnitSlotsUsed.to_string(), "AllUnitSlotsUsed");
}

#[test]
fn causes_are_told_in_words() {
    assert_eq!(
        Cause::UnknownMessage(77).to_string(),
        "Mess id (77) doesn't match any of registered ones."
    );
    assert_eq!(
        Cause::HandlerFailed(1000).to_string(),
        "Req handler for message with id 1000 returned None"
    );
    assert_eq!(
        Cause::WrongLength { needed: 10, actual: 12 }.to_string(),
        "Message len is incorrect. Expected: 10. Actual: 12."
    );
    assert_eq!(
        Cause::OverRead { expected: 12, read: 13 }.to_string(),
        "read more bytes than specified in mess len. Expected: 12, Read: 13"
    );
    assert_eq!(Cause::InvalidCategory(3).to_string(), "invalid unit category: 3");
    assert_eq!(
        Cause::HandshakeRequired.to_string(),
        "Handshake is required to register as a player"
    );
    assert_eq!(
        Cause::AllPlayersRegistered.to_string(),
        "All players already registered!"
    );
    assert_eq!(
        Cause::UnknownPlayer(340282366920938463463374607431768211455).to_string(),
        "No player is registered as 340282366920938463463374607431768211455"
    );
    assert_eq!(
        Cause::Game(GameError::PositionOutsideTheBoard(10, 3)).to_string(),
        "PositionOutsideTheBoard(10, 3)"
    );
    assert_eq!(Cause::Transport(String::from("broken pipe")).to_string(), "broken pipe");
    assert_eq!(Cause::Other(String::from("anything")).to_string(), "anything");
}

#[test]
fn errors_name_their_kind_and_their_cause() {
    let read = ReadError::from(String::from("no luck"));
    assert!(matches!(&read.couse, Cause::Other(text) if text == "no luck"));
    assert_eq!(read.to_string(), "Read error no luck");
    assert_eq!(ReadError::new(Cause::HandshakeRequired).to_string(),
        "Read error Handshake is required to register as a player");
    assert_eq!(ConnectionSevered.to_string(), "Client severed connection");

    let header = HeaderValidationError { expected: vec![82, 71], actual: vec![0, 255, 7] };
    assert_eq!(
        header.to_string(),
        "Invalid message header: (expected [82, 71], got [0, 255, 7])"
    );
    let empty = HeaderValidationError { expected: vec![82, 71], actual: vec![] };
    assert_eq!(empty.to_string(), "Invalid message header: (expected [82, 71], got [])");

    let bad = BadRequestError::from(header);
    assert!(matches!(bad.cause(), Fault::Header(_)));
    assert_eq!(
        bad.to_string(),
        "Bad request: Invalid message header: (expected [82, 71], got [0, 255, 7])"
    );
    let bad = BadRequestError::from(ConnectionSevered);
    assert!(matches!(bad.cause(), Fault::Severed(_)));
    assert_eq!(bad.to_string(), "Bad request: Client severed connection");
    let bad = BadRequestError::from(ReadError::new(Cause::UnknownMessage(9)));
    assert!(matches!(bad.cause(), Fault::Read(_)));
    assert_eq!(
        bad.to_string(),
        "Bad request: Read error Mess id (9) doesn't match any of registered ones."
    );
    let internal = InternalServerError(Fault::Read(ReadError::new(Cause::HandlerFailed(1))));
    assert!(matches!(internal.cause(), Fault::Read(_)));
    assert_eq!(
        internal.to_string(),
        "Internal server error: Read error Req handler for message with id 1 returned None"
    );
}

#[test]
fn waiting_units_are_ordered_by_their_steps_alone() {
    let a = MovingWrapper { moves_made: 1, unit_id: 9 };
    let b = MovingWrapper { moves_made: 1, unit_id: 2 };
    let c = MovingWrapper { moves_made: 3, unit_id: 0 };
    assert!(a == b);
    assert!(a != c);
    assert!(a < c);
    assert!(c > b);
    assert_eq!(a.partial_cmp(&b), Some(Ordering::Equal));
    assert_eq!(a.partial_cmp(&c), Some(Ordering::Less));
    assert_eq!(c.partial_cmp(&a), Some(Ordering::Greater));
}

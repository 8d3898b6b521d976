use std::sync::Arc;

use glib::agent::Agent;
use glib::comm::connection::{
    Action, Assembly, Context, Decoded, Handler, ReadEvent, MSG_BATCH_LEN, MSG_HEADER_LEN,
};
use glib::comm::errors::{BadRequestError, Cause, Fault, InternalServerError, ReadError};
use glib::game::error::GameError;
use glib::comm::factory::{BuilderKind, Registerable, RequestBuilder, RequestFactory};
use glib::comm::factory_init;
use glib::comm::handlers::concrete;
use glib::comm::handlers::init::new_dispatcher;
use glib::comm::handlers::requests::{AddUnit, GetUnits, Hello, RegisterPlayer};
use glib::comm::handlers::responses::{PlayerRegistered, UnitAdded, UnitsList, Welcome};
use glib::comm::handlers::{
    AnyResponse, Builder, DefaultBuilder, DispatchError, Dispatcher, HandlerKind,
};
use glib::comm::helpers;
use glib::comm::request_dispatcher::{self, RequestDispatcher, RequestHandler};
use glib::comm::requests::{self, AnyRequest};
use glib::comm::responses::welcome::Resp;
use glib::comm::Message;
use glib::game::unit::Category;
use glib::game::Game;

fn frame(id: u32, payload: &[u8]) -> Vec<u8> {
    let mut bytes = vec![0x52, 0x47];
    bytes.extend_from_slice(&id.to_le_bytes());
    bytes.extend_from_slice(&(payload.len() as u32).to_le_bytes());
    bytes.extend_from_slice(payload);
    bytes
}

fn handler() -> Handler {
    Handler::new(Context::new(7), Arc::new(new_dispatcher()))
}

fn agent() -> Agent {
    Agent::new(Game::new(2, (10, 10)))
}

#[test]
fn responses_are_framed_with_signature_id_and_length() {
    let bytes = Handler::response_as_bytes(&PlayerRegistered { player_id: 1 });
    let mut expected = vec![0x52, 0x47, 2, 0, 0, 0, 16, 0, 0, 0, 1];
    expected.extend_from_slice(&[0; 15]);
    assert_eq!(bytes, expected);
    assert_eq!(
        Handler::response_as_bytes(&Welcome),
        vec![0x52, 0x47, 1, 0, 0, 0, 0, 0, 0, 0]
    );
    assert_eq!(
        Handler::response_as_bytes(&UnitAdded { unit_id: 258 }),
        vec![0x52, 0x47, 0xe8, 3, 0, 0, 8, 0, 0, 0, 2, 1, 0, 0, 0, 0, 0, 0]
    );
}

#[test]
fn a_framed_response_is_read_back_whole() {
    let h = handler();
    let resp = PlayerRegistered { player_id: 0x0102030405060708090a0b0c0d0e0f10 };
    let bytes = Handler::response_as_bytes(&resp);
    let mut assembly = Assembly::new();
    match h.read_mess(&mut assembly, &vec![ReadEvent::Bytes(bytes.clone())]) {
        Ok(Decoded::Frame(raw)) => {
            assert_eq!(raw, bytes);
            assert_eq!(Dispatcher::read_id(&raw), resp.id());
            assert_eq!(raw[MSG_HEADER_LEN..].to_vec(), resp.payload());
        }
        _ => panic!("the frame was not read back"),
    }
    assert_eq!(assembly.len(), 0);
}

#[test]
fn a_frame_read_byte_by_byte_is_the_frame_read_at_once() {
    let h = handler();
    let bytes = frame(1000, &[9, 8, 7, 6, 5]);
    let mut events = Vec::new();
    for b in &bytes {
        events.push(ReadEvent::Bytes(vec![*b]));
    }
    let mut assembly = Assembly::new();
    let by_byte = h.read_mess(&mut assembly, &events);
    let mut assembly = Assembly::new();
    let at_once = h.read_mess(&mut assembly, &vec![ReadEvent::Bytes(bytes.clone())]);
    match (by_byte, at_once) {
        (Ok(Decoded::Frame(a)), Ok(Decoded::Frame(b))) => {
            assert_eq!(a, bytes);
            assert_eq!(b, bytes);
        }
        _ => panic!("the frame was not read back"),
    }
}

#[test]
fn a_message_is_kept_between_calls_until_it_is_complete() {
    let h = handler();
    let bytes = frame(0, &[1, 2, 3]);
    let mut assembly = Assembly::new();
    assert!(matches!(
        h.read_mess(&mut assembly, &vec![ReadEvent::Bytes(bytes[..4].to_vec())]),
        Ok(Decoded::WouldBlock)
    ));
    assert_eq!(assembly.len(), 4);
    assert!(matches!(
        h.read_mess(&mut assembly, &vec![ReadEvent::Bytes(bytes[4..12].to_vec())]),
        Ok(Decoded::WouldBlock)
    ));
    assert!(matches!(h.read_mess(&mut assembly, &vec![]), Ok(Decoded::WouldBlock)));
    match h.read_mess(&mut assembly, &vec![ReadEvent::Bytes(bytes[12..].to_vec())]) {
        Ok(Decoded::Frame(raw)) => assert_eq!(raw, bytes),
        _ => panic!("the frame was not completed"),
    }
    assert_eq!(assembly.len(), 0);
}

#[test]
fn a_wrong_signature_is_a_header_error() {
    let h = handler();
    let mut bytes = frame(0, &[]);
    bytes[1] = 0x48;
    let mut assembly = Assembly::new();
    match h.read_mess(&mut assembly, &vec![ReadEvent::Bytes(bytes.clone())]) {
        Err(BadRequestError(Fault::Header(e))) => {
            assert_eq!(e.expected, vec![0x52, 0x47]);
            assert_eq!(e.actual, bytes);
        }
        _ => panic!("the signature was not checked"),
    }
    let mut bytes = frame(0, &[]);
    bytes[0] = 0;
    let mut events = Vec::new();
    for b in &bytes {
        events.push(ReadEvent::Bytes(vec![*b]));
    }
    let mut assembly = Assembly::new();
    assert!(matches!(
        h.read_mess(&mut assembly, &events),
        Err(BadRequestError(Fault::Header(_)))
    ));
    assert!(h.try_mess_read(&mut assembly, &events).is_none());
}

#[test]
fn more_bytes_than_announced_are_an_over_read() {
    let h = handler();
    let mut bytes = frame(0, &[1, 2]);
    bytes.push(3);
    let mut assembly = Assembly::new();
    assert!(matches!(
        h.read_mess(&mut assembly, &vec![ReadEvent::Bytes(bytes.clone())]),
        Err(BadRequestError(Fault::Read(ReadError {
            couse: Cause::OverRead { expected: 12, read: 13 }
        })))
    ));
    let mut assembly = Assembly::new();
    assert!(matches!(
        h.read_mess(
            &mut assembly,
            &vec![
                ReadEvent::Bytes(bytes[..11].to_vec()),
                ReadEvent::Bytes(bytes[11..].to_vec())
            ]
        ),
        Err(BadRequestError(Fault::Read(ReadError {
            couse: Cause::OverRead { expected: 12, read: 13 }
        })))
    ));
}

#[test]
fn a_read_of_no_bytes_severs_the_connection() {
    let h = handler();
    let mut assembly = Assembly::new();
    assert!(matches!(
        h.read_mess(
            &mut assembly,
            &vec![ReadEvent::Bytes(vec![0x52]), ReadEvent::Bytes(vec![])]
        ),
        Err(BadRequestError(Fault::Severed(_)))
    ));
    let mut raw = vec![1, 2];
    assert!(matches!(
        h.extend_raw_mess(&mut raw, &ReadEvent::Bytes(vec![])),
        Err(BadRequestError(Fault::Severed(_)))
    ));
    assert_eq!(raw, vec![1, 2]);
    assert!(h.extend_raw_mess(&mut raw, &ReadEvent::Bytes(vec![3])).is_ok());
    assert_eq!(raw, vec![1, 2, 3]);
}

#[test]
fn an_error_of_the_socket_is_passed_on() {
    let h = handler();
    let mut assembly = Assembly::new();
    match h.read_mess(
        &mut assembly,
        &vec![ReadEvent::Failed(String::from("connection reset"))],
    ) {
        Err(BadRequestError(Fault::Read(ReadError { couse: Cause::Transport(text) }))) => {
            assert_eq!(text, "connection reset")
        }
        _ => panic!("the error was not passed on"),
    }
}

#[test]
fn headers_give_the_payload_length() {
    let bytes = frame(5, &[0; 300]);
    assert_eq!(Handler::parse_header(&bytes).ok(), Some(300));
    assert_eq!(handler().read_header(&bytes).ok(), Some(310));
    assert_eq!(Dispatcher::read_id(&bytes), 5);
    assert_eq!(RequestFactory::read_id(&bytes), 5);
    assert_eq!(RequestFactory::read_id(&frame(0x01020304, &[])), 0x01020304);
    assert_eq!(MSG_HEADER_LEN, 10);
    assert_eq!(MSG_BATCH_LEN, 512);
}

#[test]
fn messages_know_their_ids_and_payloads() {
    assert_eq!(Hello.id(), 0);
    assert!(Hello.payload().is_empty());
    assert_eq!(RegisterPlayer.id(), 1);
    assert!(RegisterPlayer.payload().is_empty());
    let add = AddUnit { player_id: 3, position: (258, 4), category: Category::Pickerman };
    assert_eq!(add.id(), 1000);
    let mut expected = vec![3];
    expected.extend_from_slice(&[0; 15]);
    expected.extend_from_slice(&[2, 1, 0, 0, 4, 0, 0, 0, 2]);
    assert_eq!(add.payload(), expected);
    let get = GetUnits { player_id: 1 << 120 };
    assert_eq!(get.id(), 1001);
    let mut expected = vec![0; 15];
    expected.push(1);
    assert_eq!(get.payload(), expected);
    assert_eq!(Welcome.id(), 1);
    assert_eq!(PlayerRegistered { player_id: 0 }.id(), 2);
    assert_eq!(UnitAdded { unit_id: 0 }.id(), 1000);

    let mut g = Game::new(2, (600, 600));
    g.add_unit(0, (1, 2), Category::Knight).unwrap();
    g.add_unit(0, (513, 0), Category::Knight).unwrap();
    let list = UnitsList::new(&g.get_units(vec![0, 1]).unwrap());
    assert_eq!(list.units.len(), 2);
    assert_eq!(list.units[1].position, (513, 0));
    assert_eq!(list.id(), 1001);
    let mut expected = vec![2, 0, 0, 0, 0, 0, 0, 0];
    expected.extend_from_slice(&[0, 0, 0, 0, 0, 0, 0, 0]);
    expected.extend_from_slice(&[1, 0, 0, 0, 0, 0, 0, 0]);
    expected.extend_from_slice(&[2, 0, 0, 0, 0, 0, 0, 0]);
    expected.extend_from_slice(&[1, 0, 0, 0, 0, 0, 0, 0]);
    expected.extend_from_slice(&[1, 2, 0, 0, 0, 0, 0, 0]);
    expected.extend_from_slice(&[0, 0, 0, 0, 0, 0, 0, 0]);
    assert_eq!(list.payload(), expected);
}

#[test]
fn the_registry_takes_one_handler_for_each_id() {
    let mut d = Dispatcher::new();
    assert!(d.register(4, HandlerKind::Hello));
    assert!(!d.register(4, HandlerKind::AddUnit));
    assert!(d.register(5, HandlerKind::AddUnit));
    assert_eq!(concrete::hello::Handler::req_id(), 0);
    assert_eq!(concrete::register_player::Handler::req_id(), 1);
    assert_eq!(concrete::add_unit::Handler::req_id(), 1000);
    assert_eq!(concrete::get_units::Handler::req_id(), 1001);
    assert!(matches!(concrete::add_unit::Handler::build_handler(), HandlerKind::AddUnit));

    // the second registration did not replace the first: id 4 still greets
    let mut ctx = Context::new(0);
    let mut a = agent();
    assert!(matches!(
        d.dispatch_from_raw(frame(4, &[]), &mut ctx, &mut a),
        Ok(AnyResponse::Welcome(_))
    ));
    assert!(ctx.initialized);
}

#[test]
fn a_session_greets_registers_and_places_a_unit() {
    let d = new_dispatcher();
    let mut ctx = Context::new(1);
    let mut a = agent();
    assert!(!ctx.initialized);

    assert!(matches!(
        d.dispatch_from_raw(frame(1, &[]), &mut ctx, &mut a),
        Err(DispatchError::InternalOrBadRequest(_))
    ));
    assert!(matches!(
        d.dispatch_from_raw(frame(0, &[]), &mut ctx, &mut a),
        Ok(AnyResponse::Welcome(_))
    ));
    assert!(ctx.initialized);
    let player = match d.dispatch_from_raw(frame(1, &[]), &mut ctx, &mut a) {
        Ok(AnyResponse::PlayerRegistered(resp)) => resp.player_id,
        _ => panic!("no player was registered"),
    };
    assert_eq!(a.player_id_to_inner(player), Some(0));

    let add = AddUnit { player_id: player, position: (2, 3), category: Category::Knight };
    match d.dispatch_from_raw(frame(1000, &add.payload()), &mut ctx, &mut a) {
        Ok(AnyResponse::UnitAdded(resp)) => assert_eq!(resp.unit_id, 0),
        _ => panic!("no unit was added"),
    }
    let units = a.get_units(player).unwrap();
    assert_eq!(units.len(), 1);
    assert_eq!(units[0].position, (2, 3));
    assert_eq!(units[0].category, Category::Knight);

    let get = GetUnits { player_id: player };
    match d.dispatch_from_raw(frame(1001, &get.payload()), &mut ctx, &mut a) {
        Ok(AnyResponse::UnitsList(resp)) => {
            assert_eq!(resp.units.len(), 1);
            assert_eq!(resp.units[0].id, 0);
            assert_eq!(resp.units[0].position, (2, 3));
            let mut expected = vec![1, 0, 0, 0, 0, 0, 0, 0];
            expected.extend_from_slice(&[0, 0, 0, 0, 0, 0, 0, 0]);
            expected.extend_from_slice(&[2, 0, 0, 0, 0, 0, 0, 0]);
            expected.extend_from_slice(&[3, 0, 0, 0, 0, 0, 0, 0]);
            assert_eq!(resp.payload(), expected);
        }
        _ => panic!("the units were not listed"),
    }
    let stranger = GetUnits { player_id: player.wrapping_add(1) };
    assert!(matches!(
        d.dispatch_from_raw(frame(1001, &stranger.payload()), &mut ctx, &mut a),
        Err(DispatchError::InternalOrBadRequest(InternalServerError(Fault::Read(ReadError {
            couse: Cause::UnknownPlayer(_)
        }))))
    ));
    assert!(matches!(
        d.dispatch_from_raw(frame(1001, &[1, 2, 3]), &mut ctx, &mut a),
        Err(DispatchError::MalformedPayload(BadRequestError(Fault::Read(ReadError {
            couse: Cause::WrongLength { needed: 26, actual: 13 }
        }))))
    ));

    let outside = AddUnit { player_id: player, position: (10, 3), category: Category::Knight };
    assert!(matches!(
        d.dispatch_from_raw(frame(1000, &outside.payload()), &mut ctx, &mut a),
        Err(DispatchError::InternalOrBadRequest(InternalServerError(Fault::Read(ReadError {
            couse: Cause::Game(GameError::PositionOutsideTheBoard(10, 3))
        }))))
    ));
    assert_eq!(a.get_units(player).unwrap().len(), 1);
    assert!(matches!(
        d.dispatch_from_raw(frame(77, &[]), &mut ctx, &mut a),
        Err(DispatchError::UnknownMessageId(_))
    ));
    assert!(matches!(
        d.dispatch_from_raw(frame(0, &[1]), &mut ctx, &mut a),
        Err(DispatchError::MalformedPayload(_))
    ));
}

#[test]
fn requests_are_read_from_the_bytes_of_their_messages() {
    assert!(concrete::hello::Handler::req_from_raw(&frame(0, &[])).is_ok());
    assert!(matches!(
        concrete::hello::Handler::req_from_raw(&frame(0, &[1, 2])),
        Err(ReadError { couse: Cause::WrongLength { needed: 10, actual: 12 } })
    ));
    assert!(concrete::register_player::Handler::req_from_raw(&frame(1, &[])).is_ok());
    assert!(matches!(
        concrete::register_player::Handler::req_from_raw(&vec![]),
        Err(ReadError { couse: Cause::WrongLength { needed: 10, actual: 0 } })
    ));

    let add = AddUnit { player_id: 1 << 100, position: (70000, 9), category: Category::Cavalry };
    let raw = frame(1000, &add.payload());
    let back = concrete::add_unit::Handler::req_from_raw(&raw).ok().unwrap();
    assert_eq!(back.player_id, 1 << 100);
    assert_eq!(back.position, (70000, 9));
    assert_eq!(back.category, Category::Cavalry);

    let mut bad = raw.clone();
    bad[34] = 3;
    assert!(matches!(
        concrete::add_unit::Handler::req_from_raw(&bad),
        Err(ReadError { couse: Cause::InvalidCategory(3) })
    ));
    assert!(matches!(
        concrete::add_unit::Handler::req_from_raw(&raw[..34].to_vec()),
        Err(ReadError { couse: Cause::WrongLength { needed: 35, actual: 34 } })
    ));
}

#[test]
fn handlers_demand_a_handshake() {
    let mut ctx = Context::new(0);
    let mut a = agent();
    assert!(matches!(
        concrete::register_player::Handler::handle_request(RegisterPlayer, &mut ctx, &mut a),
        Err(ReadError { couse: Cause::HandshakeRequired })
    ));
    let add = AddUnit { player_id: 1, position: (1, 1), category: Category::Knight };
    assert!(matches!(
        concrete::add_unit::Handler::handle_request(add, &mut ctx, &mut a),
        Err(ReadError { couse: Cause::HandshakeRequired })
    ));
    assert!(matches!(
        concrete::get_units::Handler::handle_request(GetUnits { player_id: 1 }, &mut ctx, &mut a),
        Err(ReadError { couse: Cause::HandshakeRequired })
    ));
    assert!(concrete::hello::Handler::handle_request(Hello, &mut ctx, &mut a).is_ok());
    assert!(ctx.initialized);
    assert!(concrete::register_player::Handler::handle_request(RegisterPlayer, &mut ctx, &mut a)
        .is_ok());
    assert!(concrete::register_player::Handler::handle_request(RegisterPlayer, &mut ctx, &mut a)
        .is_ok());
    assert!(matches!(
        concrete::register_player::Handler::handle_request(RegisterPlayer, &mut ctx, &mut a),
        Err(ReadError { couse: Cause::AllPlayersRegistered })
    ));
    let add = AddUnit { player_id: 1, position: (1, 1), category: Category::Knight };
    assert!(matches!(
        concrete::add_unit::Handler::handle_request(add, &mut ctx, &mut a),
        Err(ReadError { couse: Cause::UnknownPlayer(1) })
    ));
}

#[test]
fn a_connection_is_served_step_by_step() {
    let h = handler();
    let mut ctx = h.initial_context();
    assert_eq!(ctx.id, 7);
    let mut a = agent();
    let mut assembly = Assembly::new();
    let hello = frame(0, &[]);
    assert!(matches!(
        h.handle_connection(
            &mut assembly,
            &vec![ReadEvent::Bytes(hello[..3].to_vec())],
            &mut ctx,
            &mut a
        ),
        Action::Read
    ));
    match h.handle_connection(
        &mut assembly,
        &vec![ReadEvent::Bytes(hello[3..].to_vec())],
        &mut ctx,
        &mut a,
    ) {
        Action::Respond(bytes) => assert_eq!(bytes, frame(1, &[])),
        _ => panic!("the hello was not answered"),
    }
    assert!(ctx.initialized);
    match h.handle_connection(
        &mut assembly,
        &vec![ReadEvent::Bytes(frame(1, &[]))],
        &mut ctx,
        &mut a,
    ) {
        Action::Respond(bytes) => {
            assert_eq!(bytes.len(), 26);
            assert_eq!(bytes[..10].to_vec(), vec![0x52, 0x47, 2, 0, 0, 0, 16, 0, 0, 0]);
        }
        _ => panic!("no player was registered"),
    }
    assert!(matches!(
        h.handle_connection(
            &mut assembly,
            &vec![ReadEvent::Bytes(frame(99, &[]))],
            &mut ctx,
            &mut a
        ),
        Action::Close
    ));
    assert!(matches!(
        h.handle_connection(&mut assembly, &vec![ReadEvent::Bytes(vec![])], &mut ctx, &mut a),
        Action::Close
    ));
    let d = new_dispatcher();
    assert!(h.handle_request(frame(5, &[]), &d, &mut ctx, &mut a).is_none());
    assert!(matches!(
        h.handle_request(frame(0, &[]), &d, &mut ctx, &mut a),
        Some(AnyResponse::Welcome(_))
    ));
}

#[test]
fn the_request_factory_builds_what_is_registered() {
    let f = factory_init::init();
    assert!(matches!(f.from_raw(frame(0, &[])), Ok(AnyRequest::Hello(_))));
    assert!(matches!(
        f.from_raw(frame(256, &[])),
        Err(ReadError { couse: Cause::UnknownMessage(256) })
    ));

    let mut f = RequestFactory::new();
    assert!(!f.overregister(3, BuilderKind::Hello));
    assert!(f.from_raw(frame(3, &[])).is_err());
    assert!(f.register(3, BuilderKind::Plain));
    assert!(!f.register(3, BuilderKind::Hello));
    assert!(matches!(f.from_raw(frame(3, &[])), Ok(AnyRequest::Plain(_))));
    assert!(f.overregister(3, BuilderKind::Hello));
    assert!(matches!(f.from_raw(frame(3, &[])), Ok(AnyRequest::Hello(_))));
    f.force_register(3, BuilderKind::Plain);
    f.force_register(4, BuilderKind::Hello);
    assert!(matches!(f.from_raw(frame(3, &[])), Ok(AnyRequest::Plain(_))));
    assert!(matches!(f.from_raw(frame(4, &[])), Ok(AnyRequest::Hello(_))));
    assert_eq!(<requests::hello::Req as Registerable>::id(), 0);
    assert_eq!(<requests::Req as Registerable>::id(), 0);
    assert!(matches!(requests::Req::builder(), BuilderKind::Plain));
    assert!(matches!(
        BuilderKind::Hello.build(vec![]),
        Some(AnyRequest::Hello(_))
    ));
}

#[test]
fn the_request_dispatcher_welcomes_a_hello() {
    let mut rd = RequestDispatcher::new();
    assert_eq!(rd.handlers.len(), 1);
    assert!(!rd.register(0, request_dispatcher::HandlerKind::Welcome));
    assert!(rd.register(1, request_dispatcher::HandlerKind::Welcome));
    assert!(rd.overregister(1, request_dispatcher::HandlerKind::Welcome));
    assert!(!rd.overregister(2, request_dispatcher::HandlerKind::Welcome));
    rd.force_register(2, request_dispatcher::HandlerKind::Welcome);
    rd.force_register(2, request_dispatcher::HandlerKind::Welcome);
    assert_eq!(rd.handlers.len(), 3);

    let handler = rd.handlers.get(&0).unwrap();
    let resp: Resp = handler.respond(AnyRequest::Hello(requests::hello::Req)).unwrap();
    assert_eq!(resp.id(), 1);
    assert!(resp.payload().is_empty());
    assert!(handler.respond(AnyRequest::Plain(requests::Req)).is_none());
    assert_eq!(<Resp as request_dispatcher::Registerable>::request_id(), 0);

    let mut req = AnyRequest::Hello(requests::hello::Req);
    assert!(helpers::as_ref(&req).is_some());
    assert!(helpers::as_mut_ref(&mut req).is_some());
    let mut req = AnyRequest::Plain(requests::Req);
    assert!(helpers::as_ref(&req).is_none());
    assert!(helpers::as_mut_ref(&mut req).is_none());
    assert_eq!(req.id(), 0);
}

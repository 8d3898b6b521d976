//! The registry with which the server starts.

use vstd::prelude::*;
use crate::comm::handlers::{concrete, BoxedReqHandler, Builder, Dispatcher, HandlerKind};
use crate::comm::MessageId;

verus! {

/// The handlers that the server knows, each under the id of its request.
pub open spec fn known_handlers() -> Map<MessageId, BoxedReqHandler> {
    Map::<MessageId, BoxedReqHandler>::empty().insert(0, HandlerKind::Hello).insert(
        1,
        HandlerKind::RegisterPlayer,
    ).insert(1000, HandlerKind::AddUnit).insert(1001, HandlerKind::GetUnits)
}

/// Returns a registry in which every handler that the server knows is
/// registered.
pub fn new_dispatcher() -> (f: Dispatcher)
    ensures
        f@ == known_handlers(),
{
    let mut f = Dispatcher::new();
    let hello = f.register(concrete::hello::Handler::req_id(), concrete::hello::Handler::build_handler());
    let register_player = f.register(
        concrete::register_player::Handler::req_id(),
        concrete::register_player::Handler::build_handler(),
    );
    let add_unit = f.register(
        concrete::add_unit::Handler::req_id(),
        concrete::add_unit::Handler::build_handler(),
    );
    let get_units = f.register(
        concrete::get_units::Handler::req_id(),
        concrete::get_units::Handler::build_handler(),
    );
    assert(hello && register_player && add_unit && get_units);
    f
}

} // verus!

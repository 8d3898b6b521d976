//! The request factory with which the server starts.

use vstd::prelude::*;
use super::factory::{BoxedReqBuilder, BuilderKind, Registerable, RequestFactory};
use super::requests;
use super::RequestId;

verus! {

/// Returns a request factory in which the builder of every request is
/// registered.
pub fn init() -> (f: RequestFactory)
    ensures
        f@ == Map::<RequestId, BoxedReqBuilder>::empty().insert(0, BuilderKind::Hello),
{
    let mut f = RequestFactory::new();
    let registered = f.register(requests::hello::Req::id(), requests::hello::Req::builder());
    assert(registered);
    f
}

} // verus!

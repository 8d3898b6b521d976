//! Telling the requests apart.

use vstd::prelude::*;
use super::requests::{hello, AnyRequest};

verus! {

/// Returns the hello that the request is, or nothing when it is another
/// request.
pub fn as_ref(obj: &AnyRequest) -> (r: Option<&hello::Req>)
    ensures
        match *obj {
            AnyRequest::Hello(req) => r == Some(&req),
            _ => r is None,
        },
{
    match obj {
        AnyRequest::Hello(req) => Some(req),
        _ => None,
    }
}

/// Returns the hello that the request is, for changing it, or nothing when
/// it is another request.
pub fn as_mut_ref(obj: &mut AnyRequest) -> (r: Option<&mut hello::Req>)
    ensures
        match *old(obj) {
            AnyRequest::Hello(req) => r matches Some(hello) && *hello == req && *final(obj)
                == AnyRequest::Hello(*final(hello)),
            _ => r is None && *final(obj) == *old(obj),
        },
{
    match obj {
        AnyRequest::Hello(req) => Some(req),
        _ => None,
    }
}

} // verus!

//! Access tokens and the guard that checks them on each request.

pub mod jwt;
pub mod middleware;

use crate::auth::middleware::RequestContext;
use crate::models::Claims;
use vstd::prelude::*;

verus! {

/// The identity that the guard attached to a request, if it did.
pub fn get_claims(req: &RequestContext) -> (res: Option<Claims>)
    ensures
        match res {
            Some(c) => req@ == Some(c@),
            None => req@ is None,
        },
{
    match &req.claims {
        Some(c) => Some(c.duplicate()),
        None => None,
    }
}

} // verus!

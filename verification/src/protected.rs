//! The handler behind the authorization gate: it reads the verified
//! claims carried by the request and answers with the caller's own id.

use vstd::prelude::*;
use vstd::string::StringExecFns;

use crate::claims::Claims;

verus! {

#[derive(Debug)]
pub struct ProtectedResponse {
    pub message: String,
    pub user_id: i32,
}

/// Answer an authenticated request from its verified claims.
pub fn handler(claims: &Claims) -> (r: ProtectedResponse)
    ensures
        r.user_id == claims.sub,
        r.message@ == "This is a protected endpoint"@,
{
    ProtectedResponse {
        message: String::from_str("This is a protected endpoint"),
        user_id: claims.sub,
    }
}

} // verus!

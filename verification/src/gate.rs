//! The authorization gate in front of protected handlers. Each
//! request either becomes authenticated — its bearer token checks out
//! and the claims travel on with it — or is rejected; a missing
//! header, a foreign scheme, a bad signature and an expired token all
//! answer with the same authentication failure.

use vstd::prelude::*;

use crate::claims::{match_at, match_lit, Claims};
use crate::errors::AppError;
use crate::token::{spec_verify_token, subvec, JwtService};

verus! {

/// The scheme prefix `Bearer ` of an authorization header.
pub open spec fn bearer_prefix() -> Seq<u8> {
    seq![66u8, 101, 97, 114, 101, 114, 32]
}

/// The token carried by a header of the bearer scheme, if the header
/// is one.
pub open spec fn spec_bearer_token(h: Seq<u8>) -> Option<Seq<u8>> {
    if h.len() >= 7 && h.subrange(0, 7) == bearer_prefix() {
        Some(h.subrange(7, h.len() as int))
    } else {
        None
    }
}

fn bearer_prefix_vec() -> (v: Vec<u8>)
    ensures
        v@ == bearer_prefix(),
{
    let mut v: Vec<u8> = Vec::new();
    v.push(66);
    v.push(101);
    v.push(97);
    v.push(114);
    v.push(101);
    v.push(114);
    v.push(32);
    proof {
        assert(v@ =~= bearer_prefix());
    }
    v
}

/// Extract the token from an authorization header's bytes.
pub fn extract_bearer(header: &Vec<u8>) -> (r: Option<Vec<u8>>)
    ensures
        match r {
            Some(t) => spec_bearer_token(header@) == Some(t@),
            None => spec_bearer_token(header@) is None,
        },
{
    let prefix = bearer_prefix_vec();
    if !match_lit(header, 0, &prefix) {
        proof {
            if header@.len() >= 7 {
                assert(match_at(header@, 0, bearer_prefix()) == (header@.subrange(0, 7)
                    == bearer_prefix()));
            }
        }
        return None;
    }
    Some(subvec(header, 7, header.len()))
}

/// Decide one request at moment `now`: the claims of a well-formed,
/// correctly signed, unexpired bearer token, or the one uniform
/// authentication failure.
pub fn auth_middleware(header: Option<&Vec<u8>>, jwt: &JwtService, now: u64) -> (r: Result<
    Claims,
    AppError,
>)
    ensures
        match header {
            None => r matches Err(e) && e == AppError::AuthenticationError,
            Some(h) => match spec_bearer_token(h@) {
                None => r matches Err(e) && e == AppError::AuthenticationError,
                Some(tok) => match spec_verify_token(jwt@, tok, now) {
                    Some(c) => r matches Ok(rc) && rc == c,
                    None => r matches Err(e) && e == AppError::AuthenticationError,
                },
            },
        },
{
    let h = match header {
        None => {
            return Err(AppError::AuthenticationError);
        },
        Some(h) => h,
    };
    let tok = match extract_bearer(h) {
        None => {
            return Err(AppError::AuthenticationError);
        },
        Some(t) => t,
    };
    match jwt.verify_token_bytes_at(&tok, now) {
        Ok(c) => Ok(c),
        Err(_) => Err(AppError::AuthenticationError),
    }
}

} // verus!

//! Login and registration. The user store is an outside collaborator:
//! the caller looks a record up (or asks whether an email is taken)
//! and hands the result in; these functions make every decision from
//! there. Failures on the login path are uniform on purpose — an
//! unknown account and a wrong password answer identically.

use vstd::prelude::*;

use crate::errors::AppError;
use crate::hashing::{bcrypt_matches, verify_password};
use crate::policy::password_ok;
use crate::token::{ascii_chars, spec_claims_at, spec_token, JwtService};
use crate::user::{User, UserRole};
use crate::users::build_new_user;

verus! {

#[derive(Debug)]
pub struct LoginRequest {
    pub email: String,
    pub password: String,
}

#[derive(Debug)]
pub struct LoginResponse {
    pub token: String,
    pub user_id: i32,
    pub email: String,
}

#[derive(Debug)]
pub struct RegisterRequest {
    pub email: String,
    pub password: String,
}

#[derive(Debug)]
pub struct RegisterResponse {
    pub user_id: i32,
    pub email: String,
}

/// Decide a login at moment `now`, given the record the store found
/// for the requested email (or none). An absent record and a
/// mismatched password fail identically; a match is answered with a
/// token for the user's id and role, good for 24 hours.
pub fn login(payload: &LoginRequest, user: Option<&User>, jwt: &JwtService, now: u64) -> (r: Result<
    LoginResponse,
    AppError,
>)
    requires
        now + 86400 <= u64::MAX,
    ensures
        user is None ==> (r matches Err(e) && e == AppError::AuthenticationError),
        user matches Some(u) ==> if !bcrypt_matches(payload.password@, u.password@) {
            r matches Err(e) && e == AppError::AuthenticationError
        } else {
            r matches Ok(resp) && resp.user_id == u.id && resp.email@ == u.email@ && resp.token@
                == ascii_chars(spec_token(jwt@, spec_claims_at(u.id, u.role, now)))
        },
{
    match user {
        None => Err(AppError::AuthenticationError),
        Some(u) => {
            if !verify_password(payload.password.as_str(), u.password.as_str()) {
                return Err(AppError::AuthenticationError);
            }
            match jwt.generate_token_at(u.id, u.role, now) {
                Ok(token) => Ok(
                    LoginResponse { token, user_id: u.id, email: u.email.clone() },
                ),
                Err(_) => Err(AppError::InternalServerError),
            }
        },
    }
}

/// Decide a registration: a taken email is refused as a conflict, a
/// weak password by the policy, and an accepted request becomes the
/// record to persist — hashed credential, plain `User` role, email
/// unverified, no token issued.
pub fn register(payload: &RegisterRequest, email_taken: bool, now: i64) -> (r: Result<
    User,
    AppError,
>)
    ensures
        email_taken ==> (r matches Err(e) && e == AppError::UserAlreadyExists),
        !email_taken && !password_ok(payload.password@) ==> (r matches Err(e) && e
            == AppError::InvalidPassword),
        !email_taken && password_ok(payload.password@) ==> match r {
            Ok(u) => u.id == 0 && u.email@ == payload.email@ && bcrypt_matches(
                payload.password@,
                u.password@,
            ) && u.role == UserRole::User && !u.is_email_verified && u.deleted_at is None
                && u.created_at == now,
            Err(e) => e == AppError::InternalServerError,
        },
{
    if email_taken {
        return Err(AppError::UserAlreadyExists);
    }
    build_new_user(payload.email.clone(), payload.password.as_str(), UserRole::User, now)
}

/// The public reply to a completed registration, read off the stored
/// record.
pub fn register_response(user: &User) -> (r: RegisterResponse)
    ensures
        r.user_id == user.id,
        r.email@ == user.email@,
{
    RegisterResponse { user_id: user.id, email: user.email.clone() }
}

} // verus!

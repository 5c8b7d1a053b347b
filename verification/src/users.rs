//! The computing side of user administration. The store that persists
//! records is outside the library: these functions validate, hash and
//! shape the records it is given and the responses read from it.

use vstd::prelude::*;

use crate::errors::AppError;
use crate::hashing::{bcrypt_matches, hash_password};
use crate::policy::{password_ok, validate_password};
use crate::user::{User, UserRole};

verus! {

pub struct CreateUserRequest {
    pub email: String,
    pub password: String,
}

pub struct UpdateUserRequest {
    pub email: Option<String>,
    pub password: Option<String>,
}

pub struct ListUsersQuery {
    pub limit: Option<i64>,
    pub offset: Option<i64>,
}

/// The public face of a record: never the credential hash.
#[derive(Debug)]
pub struct UserResponse {
    pub id: i32,
    pub email: String,
    pub created_at: i64,
}

impl From<User> for UserResponse {
    fn from(user: User) -> (r: UserResponse) {
        UserResponse { id: user.id, email: user.email, created_at: user.created_at }
    }
}

impl vstd::std_specs::convert::FromSpecImpl<User> for UserResponse {
    open spec fn obeys_from_spec() -> bool {
        true
    }

    open spec fn from_spec(user: User) -> UserResponse {
        UserResponse { id: user.id, email: user.email, created_at: user.created_at }
    }
}

/// Shape the record a new account is stored under: the policy is
/// enforced, the password leaves only as its hash, the email stays
/// unverified, and the store assigns the real id in place of zero.
pub fn build_new_user(email: String, password: &str, role: UserRole, now: i64) -> (r: Result<
    User,
    AppError,
>)
    ensures
        !password_ok(password@) ==> (r matches Err(e) && e == AppError::InvalidPassword),
        password_ok(password@) ==> match r {
            Ok(u) => u.id == 0 && u.email@ == email@ && bcrypt_matches(password@, u.password@)
                && u.role == role && !u.is_email_verified && u.deleted_at is None && u.created_at
                == now,
            Err(e) => e == AppError::InternalServerError,
        },
{
    match validate_password(password) {
        Ok(_) => {},
        Err(e) => {
            return Err(e);
        },
    }
    let hashed = match hash_password(password) {
        Ok(h) => h,
        Err(e) => {
            return Err(e);
        },
    };
    Ok(
        User {
            id: 0,
            email,
            password: hashed,
            role,
            is_email_verified: false,
            deleted_at: None,
            created_at: now,
        },
    )
}

/// The response for a looked-up record; an absent record is the
/// not-found category.
pub fn get_user(found: Option<User>) -> (r: Result<UserResponse, AppError>)
    ensures
        match found {
            None => r matches Err(e) && e == AppError::NotFound,
            Some(u) => r matches Ok(resp) && resp.id == u.id && resp.email@ == u.email@
                && resp.created_at == u.created_at,
        },
{
    match found {
        None => Err(AppError::NotFound),
        Some(u) => Ok(UserResponse { id: u.id, email: u.email, created_at: u.created_at }),
    }
}

/// The page bounds a listing uses: ten records from the start unless
/// the query says otherwise.
pub fn list_params(q: &ListUsersQuery) -> (r: (i64, i64))
    ensures
        r.0 == match q.limit {
            Some(l) => l as int,
            None => 10int,
        },
        r.1 == match q.offset {
            Some(o) => o as int,
            None => 0int,
        },
{
    let limit = match q.limit {
        Some(l) => l,
        None => 10,
    };
    let offset = match q.offset {
        Some(o) => o,
        None => 0,
    };
    (limit, offset)
}

/// Hash a password change before it is stored; an absent change stays
/// absent, and no policy applies to updates.
pub fn prepare_password_update(password: Option<&str>) -> (r: Result<Option<String>, AppError>)
    ensures
        password is None ==> (r matches Ok(h) && h is None),
        password matches Some(pw) ==> match r {
            Ok(h) => h matches Some(hs) && bcrypt_matches(pw@, hs@),
            Err(e) => e == AppError::InternalServerError,
        },
{
    match password {
        None => Ok(None),
        Some(pw) => match hash_password(pw) {
            Ok(h) => Ok(Some(h)),
            Err(e) => Err(e),
        },
    }
}

} // verus!

//! The user record and the role carried in token claims. The store that
//! persists records is an external collaborator; timestamps cross the
//! boundary as plain unix seconds.

use vstd::prelude::*;

verus! {

#[derive(Clone, Copy, Debug, PartialEq, Eq, Structural)]
pub enum UserRole {
    Admin,
    User,
}

/// A durable user record as the external store hands it to the core.
/// `password` holds the one-way credential hash, never a plaintext.
#[derive(Clone, Debug)]
pub struct User {
    pub id: i32,
    pub email: String,
    pub password: String,
    pub role: UserRole,
    pub is_email_verified: bool,
    pub deleted_at: Option<i64>,
    pub created_at: i64,
}

impl User {
    /// A record is visible unless it has been soft-deleted.
    pub open spec fn spec_visible(&self) -> bool {
        self.deleted_at is None
    }

    pub fn is_visible(&self) -> (r: bool)
        ensures
            r == self.spec_visible(),
    {
        match self.deleted_at {
            Option::None => true,
            Option::Some(_) => false,
        }
    }

    /// Stamp the record as soft-deleted at `now`; every other field is kept.
    pub fn mark_deleted(&mut self, now: i64)
        ensures
            final(self).deleted_at == Some(now),
            final(self).id == old(self).id,
            final(self).email == old(self).email,
            final(self).password == old(self).password,
            final(self).role == old(self).role,
            final(self).is_email_verified == old(self).is_email_verified,
            final(self).created_at == old(self).created_at,
    {
        self.deleted_at = Some(now);
    }

    /// Record that the account's email address has been confirmed.
    pub fn mark_email_verified(&mut self)
        ensures
            final(self).is_email_verified,
            final(self).id == old(self).id,
            final(self).email == old(self).email,
            final(self).password == old(self).password,
            final(self).role == old(self).role,
            final(self).deleted_at == old(self).deleted_at,
            final(self).created_at == old(self).created_at,
    {
        self.is_email_verified = true;
    }
}

} // verus!

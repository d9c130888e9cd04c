//! User accounts, their roles, and the request/response payloads of the
//! user routes.

use crate::codec::str_eq;
use crate::config::MAX_TIMESTAMP;
use vstd::prelude::*;

verus! {

/// The closed role enumeration; external role spellings are normalized
/// into it at the boundary by [`parse_role`].
#[derive(Debug, Clone, Copy, PartialEq, Eq, Structural)]
pub enum UserRole {
    Admin,
    User,
}

/// The role spellings accepted from external input.
pub open spec fn role_of_string(s: Seq<char>) -> Option<UserRole> {
    if s == "ADMIN"@ || s == "Admin"@ || s == "admin"@ {
        Some(UserRole::Admin)
    } else if s == "USER"@ || s == "User"@ || s == "user"@ {
        Some(UserRole::User)
    } else {
        None
    }
}

/// Normalizes an externally supplied role spelling to the closed
/// enumeration; unknown spellings are rejected.
pub fn parse_role(s: &str) -> (r: Option<UserRole>)
    ensures
        r == role_of_string(s@),
{
    if str_eq(s, "ADMIN") || str_eq(s, "Admin") || str_eq(s, "admin") {
        Some(UserRole::Admin)
    } else if str_eq(s, "USER") || str_eq(s, "User") || str_eq(s, "user") {
        Some(UserRole::User)
    } else {
        None
    }
}

/// A stored account. `last_token` records the most recently issued bearer
/// token: at most that one token is considered valid for the account.
#[derive(Debug)]
pub struct User {
    /// Store-assigned identifier; absent until the record is persisted.
    pub id: Option<u64>,
    pub username: String,
    pub password_hash: String,
    pub email: Option<String>,
    pub role: UserRole,
    pub created_at: i64,
    pub updated_at: i64,
    pub last_token: Option<String>,
}

impl User {
    pub open spec fn wf(self) -> bool {
        &&& 0 <= self.created_at <= MAX_TIMESTAMP
        &&& 0 <= self.updated_at <= MAX_TIMESTAMP
    }

    pub fn new(username: String, password_hash: String, email: Option<String>, role: UserRole, now:
        i64) -> (r: User)
        requires
            0 <= now <= MAX_TIMESTAMP,
        ensures
            r == (User {
                id: None,
                username,
                password_hash,
                email,
                role,
                created_at: now,
                updated_at: now,
                last_token: None,
            }),
            r.wf(),
    {
        User {
            id: None,
            username,
            password_hash,
            email,
            role,
            created_at: now,
            updated_at: now,
            last_token: None,
        }
    }

    /// A field-for-field copy.
    pub fn duplicate(&self) -> (r: User)
        ensures
            r == *self,
    {
        User {
            id: self.id,
            username: self.username.clone(),
            password_hash: self.password_hash.clone(),
            email: crate::models::clone_opt_string(&self.email),
            role: self.role,
            created_at: self.created_at,
            updated_at: self.updated_at,
            last_token: crate::models::clone_opt_string(&self.last_token),
        }
    }
}

/// The public projection of an account: everything but the credential
/// material.
#[derive(Debug)]
pub struct UserInfo {
    pub id: u64,
    pub username: String,
    pub email: Option<String>,
    pub role: UserRole,
}

impl UserInfo {
    /// Projects a persisted account (one whose id has been assigned).
    pub fn from(user: User) -> (r: UserInfo)
        requires
            user.id is Some,
        ensures
            r.id == user.id->0,
            r.username == user.username,
            r.email == user.email,
            r.role == user.role,
    {
        let id = match user.id {
            Some(id) => id,
            None => 0,
        };
        UserInfo { id, username: user.username, email: user.email, role: user.role }
    }
}

/// Registration request.
pub struct CreateUserRequest {
    pub username: String,
    pub password: String,
    pub email: Option<String>,
    pub role: UserRole,
}

/// Login request.
pub struct LoginRequest {
    pub username: String,
    pub password: String,
}

/// Successful login: the fresh bearer token and the account it names.
pub struct LoginResponse {
    pub token: String,
    pub user: UserInfo,
}

/// Admin-side account update; absent fields are left unchanged.
pub struct UpdateUserRequest {
    pub username: Option<String>,
    pub password: Option<String>,
    pub email: Option<String>,
    pub role: Option<UserRole>,
}

} // verus!

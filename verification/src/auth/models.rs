//! Authentication payloads and the user shown to clients.
use crate::state::{PublicUser, UserRole};
use vstd::prelude::*;

verus! {

broadcast use vstd::string::group_string_axioms;

#[derive(Debug, Clone, PartialEq, Eq)]
pub struct LoginRequest {
    pub username: String,
    pub password: String,
}

#[derive(Debug, Clone, PartialEq, Eq)]
pub struct RegisterRequest {
    pub username: String,
    pub password: String,
}

#[derive(Debug, Clone, PartialEq, Eq)]
pub struct AuthenticatedUser {
    pub id: String,
    pub username: String,
    pub role: String,
}

/// The name under which a role is shown.
pub open spec fn role_name(role: UserRole) -> Seq<char> {
    match role {
        UserRole::Owner => "owner"@,
        UserRole::User => "user"@,
    }
}

impl AuthenticatedUser {
    /// The user as shown to clients, with the role by name.
    pub fn from(value: PublicUser) -> (r: Self)
        ensures
            r.id == value.id,
            r.username == value.username,
            r.role@ == role_name(value.role),
    {
        AuthenticatedUser {
            id: value.id,
            username: value.username,
            role: match value.role {
                UserRole::Owner => "owner".to_string(),
                UserRole::User => "user".to_string(),
            },
        }
    }
}

} // verus!

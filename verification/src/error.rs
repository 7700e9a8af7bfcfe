//! The failures that a storage backend reports.

use vstd::prelude::*;
use vstd::string::*;

verus! {

/// Why an operation on the user store did not succeed.
#[derive(Debug, Clone, Copy, PartialEq, Eq, Structural)]
pub enum AuthError {
    /// A user with the same name exists already.
    DuplicateUsername,
    /// No record answers to the given name, id, token or credentials.
    NotFound,
    /// The backend could not be reached or refused a write.
    IOError,
    /// The user lacks the permission that the resource asks for.
    AccessDenied,
    /// The user exists but has not been activated.
    NotActive,
    /// The user has been disabled.
    DisabledUser,
}

impl AuthError {
    /// The sentence shown to a caller for this error.
    pub open spec fn message(self) -> Seq<char> {
        match self {
            AuthError::DuplicateUsername => "User with that name already exists"@,
            AuthError::NotFound => "Cannot find user with that parameters"@,
            AuthError::IOError => "Some problem with DB"@,
            AuthError::AccessDenied => "You don't have permissions to that resource"@,
            AuthError::NotActive => "Sorry, but this user is not activated"@,
            AuthError::DisabledUser => "Sorry, but this user is disabled"@,
        }
    }

    /// A short description of the error.
    pub fn description(&self) -> (text: &'static str)
        ensures
            text@ == self.message(),
    {
        match self {
            AuthError::DuplicateUsername => "User with that name already exists",
            AuthError::NotFound => "Cannot find user with that parameters",
            AuthError::IOError => "Some problem with DB",
            AuthError::AccessDenied => "You don't have permissions to that resource",
            AuthError::NotActive => "Sorry, but this user is not activated",
            AuthError::DisabledUser => "Sorry, but this user is disabled",
        }
    }

    /// The description as an owned string.
    pub fn to_string(&self) -> (text: String)
        ensures
            text@ == self.message(),
    {
        String::from_str(self.description())
    }
}

} // verus!

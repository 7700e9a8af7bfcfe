//! The bodies of the sign-in and sign-up requests.

use std::collections::HashMap;
use vstd::prelude::*;

use crate::text::same_text;

verus! {

/// What a user sends to sign in.
pub struct SignIn {
    pub username: String,
    pub password: String,
}

/// What a user sends to register.
pub struct SignUp {
    pub username: String,
    pub email: String,
    pub password: String,
    pub re_password: String,
    pub attributes: HashMap<String, String>,
}

impl SignUp {
    /// Whether the password was typed the same way twice.
    pub fn passwords_match(&self) -> (same: bool)
        ensures
            same == (self.password@ == self.re_password@),
    {
        same_text(self.password.as_str(), self.re_password.as_str())
    }
}

} // verus!

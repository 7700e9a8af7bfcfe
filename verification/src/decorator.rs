//! A wrapper around a backend that hands every call on unchanged: the place
//! to hang caching, auditing or rate limiting without touching the backend.

use std::collections::HashMap;
use vstd::prelude::*;

use crate::account::{PrivateUser, Role, User};
use crate::entity::{Answer, Call, Entity};
use crate::error::AuthError;

verus! {

/// A backend behind a wrapper. Without a type argument the backend is any
/// implementation of the contract, chosen at run time.
pub struct AuthEntity<E: Entity + ?Sized = dyn Entity> {
    component: Box<E>,
}

impl<E: Entity + ?Sized> AuthEntity<E> {
    /// Wraps a backend.
    pub fn new(component: Box<E>) -> (entity: AuthEntity<E>)
        ensures
            forall|call: Call, answer: Answer| #[trigger]
                entity.answers(call, answer) == component.answers(call, answer),
    {
        AuthEntity { component }
    }
}

impl<E: Entity + ?Sized> Entity for AuthEntity<E> {
    /// The wrapper answers as the backend behind it does.
    closed spec fn answers(&self, call: Call, answer: Answer) -> bool {
        self.component.answers(call, answer)
    }

    fn add_user(
        &self,
        name: &str,
        email: &str,
        password: &str,
        attributes: HashMap<String, String>,
    ) -> (result: Result<User, AuthError>) {
        self.component.add_user(name, email, password, attributes)
    }

    fn get_user_by_id(&self, user_id: i32) -> (result: Result<User, AuthError>) {
        self.component.get_user_by_id(user_id)
    }

    fn get_user_by_name(&self, username: &str) -> (result: Result<PrivateUser, AuthError>) {
        self.component.get_user_by_name(username)
    }

    fn get_user_by_name_and_pwd(&self, username: &str, password: &str) -> (result: Result<
        User,
        AuthError,
    >) {
        self.component.get_user_by_name_and_pwd(username, password)
    }

    fn delete_user(&self, user_id: i32) -> (result: Option<AuthError>) {
        self.component.delete_user(user_id)
    }

    fn list_users(&self, from: isize, count: isize) -> (result: Result<Vec<User>, AuthError>) {
        self.component.list_users(from, count)
    }

    fn enable_user(&self, username: &str) -> (result: Result<User, AuthError>) {
        self.component.enable_user(username)
    }

    fn disable_user(&self, username: &str) -> (result: Result<User, AuthError>) {
        self.component.disable_user(username)
    }

    fn get_token(&self, username: &str) -> (result: Result<String, AuthError>) {
        self.component.get_token(username)
    }

    fn add_token(&self, username: &str, token: &str) -> (result: Option<AuthError>) {
        self.component.add_token(username, token)
    }

    fn get_user_by_token(&self, token: &str) -> (result: Result<User, AuthError>) {
        self.component.get_user_by_token(token)
    }

    fn delete_token(&self, token: &str) -> (result: Option<AuthError>) {
        self.component.delete_token(token)
    }

    fn add_user_role(&self, username: &str, role: Role) -> (result: Result<User, AuthError>) {
        self.component.add_user_role(username, role)
    }
}

} // verus!

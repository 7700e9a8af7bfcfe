//! The storage contract: what every backend of users and tokens offers.

use std::collections::HashMap;
use vstd::prelude::*;

use crate::account::{PrivateUser, Role, RoleView, User};
use crate::error::AuthError;

verus! {

/// A call of the storage contract, with its arguments.
pub enum Call {
    AddUser {
        name: Seq<char>,
        email: Seq<char>,
        password: Seq<char>,
        attributes: Map<String, String>,
    },
    GetUserById { user_id: i32 },
    GetUserByName { username: Seq<char> },
    GetUserByNameAndPwd { username: Seq<char>, password: Seq<char> },
    DeleteUser { user_id: i32 },
    ListUsers { from: isize, count: isize },
    EnableUser { username: Seq<char> },
    DisableUser { username: Seq<char> },
    GetToken { username: Seq<char> },
    AddToken { username: Seq<char>, token: Seq<char> },
    GetUserByToken { token: Seq<char> },
    DeleteToken { token: Seq<char> },
    AddUserRole { username: Seq<char>, role: RoleView },
}

/// What a call of the storage contract hands back.
pub enum Answer {
    User(Result<User, AuthError>),
    Private(Result<PrivateUser, AuthError>),
    Users(Result<Vec<User>, AuthError>),
    Token(Result<String, AuthError>),
    Done(Option<AuthError>),
}

/// A backend that stores users and their tokens.
///
/// What a backend hands back depends on what it has stored, which this
/// contract does not model: `answers` names, for each implementation, the
/// answers that it may give to a call, and every method gives one of them.
pub trait Entity: Send + Sync + 'static {
    /// Whether this backend may give `answer` to `call`. A backend that
    /// says nothing of its answers may give any.
    open spec fn answers(&self, call: Call, answer: Answer) -> bool {
        true
    }

    /// Registers a user, with status `Created` and role `Users`. Fails with
    /// `DuplicateUsername` where a user of that name exists.
    fn add_user(
        &self,
        name: &str,
        email: &str,
        password: &str,
        attributes: HashMap<String, String>,
    ) -> (result: Result<User, AuthError>)
        ensures
            self.answers(
                Call::AddUser {
                    name: name@,
                    email: email@,
                    password: password@,
                    attributes: attributes@,
                },
                Answer::User(result),
            ),
    ;

    /// Looks a user up by id.
    fn get_user_by_id(&self, user_id: i32) -> (result: Result<User, AuthError>)
        ensures
            self.answers(Call::GetUserById { user_id }, Answer::User(result)),
    ;

    /// Looks a user up by name; the record holds the password hash.
    fn get_user_by_name(&self, username: &str) -> (result: Result<PrivateUser, AuthError>)
        ensures
            self.answers(Call::GetUserByName { username: username@ }, Answer::Private(result)),
    ;

    /// Looks a user up by name and password. An unknown name and a wrong
    /// password both give `NotFound`.
    fn get_user_by_name_and_pwd(&self, username: &str, password: &str) -> (result: Result<
        User,
        AuthError,
    >)
        ensures
            self.answers(
                Call::GetUserByNameAndPwd { username: username@, password: password@ },
                Answer::User(result),
            ),
    ;

    /// Deletes a user.
    fn delete_user(&self, user_id: i32) -> (result: Option<AuthError>)
        ensures
            self.answers(Call::DeleteUser { user_id }, Answer::Done(result)),
    ;

    /// Lists users in the order of their creation, by rank.
    fn list_users(&self, from: isize, count: isize) -> (result: Result<Vec<User>, AuthError>)
        ensures
            self.answers(Call::ListUsers { from, count }, Answer::Users(result)),
    ;

    /// Makes a user `Active`.
    fn enable_user(&self, username: &str) -> (result: Result<User, AuthError>)
        ensures
            self.answers(Call::EnableUser { username: username@ }, Answer::User(result)),
    ;

    /// Makes a user `Disabled`.
    fn disable_user(&self, username: &str) -> (result: Result<User, AuthError>)
        ensures
            self.answers(Call::DisableUser { username: username@ }, Answer::User(result)),
    ;

    /// Reads the token bound to a user.
    fn get_token(&self, username: &str) -> (result: Result<String, AuthError>)
        ensures
            self.answers(Call::GetToken { username: username@ }, Answer::Token(result)),
    ;

    /// Binds a token to a user.
    fn add_token(&self, username: &str, token: &str) -> (result: Option<AuthError>)
        ensures
            self.answers(
                Call::AddToken { username: username@, token: token@ },
                Answer::Done(result),
            ),
    ;

    /// Resolves a token to its user, who must be `Active`, and renews the
    /// token's lifetime.
    fn get_user_by_token(&self, token: &str) -> (result: Result<User, AuthError>)
        ensures
            self.answers(Call::GetUserByToken { token: token@ }, Answer::User(result)),
    ;

    /// Removes a token.
    fn delete_token(&self, token: &str) -> (result: Option<AuthError>)
        ensures
            self.answers(Call::DeleteToken { token: token@ }, Answer::Done(result)),
    ;

    /// Gives a user a role in place of the one it has.
    fn add_user_role(&self, username: &str, role: Role) -> (result: Result<User, AuthError>)
        ensures
            self.answers(
                Call::AddUserRole { username: username@, role: role@ },
                Answer::User(result),
            ),
    ;
}

} // verus!

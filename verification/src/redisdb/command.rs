//! What the store asks of the backend, what the backend answers, and what an
//! operation ends with.

use vstd::prelude::*;

use crate::account::{PrivateUser, PrivateUserView, User, UserView};
use crate::error::AuthError;
use crate::redisdb::record::FieldsView;

verus! {

/// The lifetime, in seconds, of a token binding.
pub const TOKEN_TTL: usize = 3600;

/// One command for the key-value backend.
#[derive(Debug, Clone, PartialEq)]
pub enum Command {
    /// Read the whole field map at `key` (`HGETALL`).
    ReadFields { key: String },
    /// Read the text at `key` (`GET`).
    ReadText { key: String },
    /// Store `value` as the text at `key` (`SET`).
    WriteText { key: String, value: String },
    /// Add `delta` to the counter `field` of the field map at `key`, and read
    /// it (`HINCRBY`).
    Increment { key: String, field: String, delta: i32 },
    /// Put `member` with `score` into the ordered set at `key` (`ZADD`).
    Enlist { key: String, member: i32, score: i64 },
    /// Store every field of `items` in the field map at `key` (`HMSET`).
    WriteFields { key: String, items: Vec<(String, String)> },
    /// Store `value` as `field` of the field map at `key` (`HSET`).
    WriteField { key: String, field: String, value: String },
    /// Delete `key` (`DEL`).
    Delete { key: String },
    /// Take `member` out of the ordered set at `key` (`ZREM`).
    Delist { key: String, member: i32 },
    /// Read the members of the ordered set at `key` whose ranks lie from
    /// `start` to `stop`, in ascending order of score (`ZRANGE`).
    Range { key: String, start: isize, stop: isize },
    /// Let `key` expire after `seconds` (`EXPIRE`).
    Expire { key: String, seconds: usize },
}

/// A [`Command`] with its texts as sequences of characters.
pub enum CommandView {
    ReadFields { key: Seq<char> },
    ReadText { key: Seq<char> },
    WriteText { key: Seq<char>, value: Seq<char> },
    Increment { key: Seq<char>, field: Seq<char>, delta: i32 },
    Enlist { key: Seq<char>, member: i32, score: i64 },
    WriteFields { key: Seq<char>, items: FieldsView },
    WriteField { key: Seq<char>, field: Seq<char>, value: Seq<char> },
    Delete { key: Seq<char> },
    Delist { key: Seq<char>, member: i32 },
    Range { key: Seq<char>, start: isize, stop: isize },
    Expire { key: Seq<char>, seconds: usize },
}

impl View for Command {
    type V = CommandView;

    open spec fn view(&self) -> CommandView {
        match self {
            Command::ReadFields { key } => CommandView::ReadFields { key: key@ },
            Command::ReadText { key } => CommandView::ReadText { key: key@ },
            Command::WriteText { key, value } => CommandView::WriteText { key: key@, value: value@ },
            Command::Increment { key, field, delta } => CommandView::Increment {
                key: key@,
                field: field@,
                delta: *delta,
            },
            Command::Enlist { key, member, score } => CommandView::Enlist {
                key: key@,
                member: *member,
                score: *score,
            },
            Command::WriteFields { key, items } => CommandView::WriteFields {
                key: key@,
                items: items.deep_view(),
            },
            Command::WriteField { key, field, value } => CommandView::WriteField {
                key: key@,
                field: field@,
                value: value@,
            },
            Command::Delete { key } => CommandView::Delete { key: key@ },
            Command::Delist { key, member } => CommandView::Delist { key: key@, member: *member },
            Command::Range { key, start, stop } => CommandView::Range {
                key: key@,
                start: *start,
                stop: *stop,
            },
            Command::Expire { key, seconds } => CommandView::Expire {
                key: key@,
                seconds: *seconds,
            },
        }
    }
}

/// What came back from the backend.
#[derive(Debug, Clone, PartialEq)]
pub enum Event {
    /// A connection was acquired.
    Connected,
    /// No connection could be acquired.
    Unavailable,
    /// The command failed, or its answer was not of the kind asked for
    /// (a missing text counts as such).
    Failed,
    /// A write was carried out.
    Done,
    /// The text read by `ReadText`.
    Text(String),
    /// The counter read by `Increment`.
    Number(i32),
    /// The field map read by `ReadFields`; empty where the key holds none.
    Fields(Vec<(String, String)>),
    /// The members read by `Range`.
    Members(Vec<i32>),
}

/// An [`Event`] with its texts as sequences of characters.
pub enum EventView {
    Connected,
    Unavailable,
    Failed,
    Done,
    Text(Seq<char>),
    Number(i32),
    Fields(FieldsView),
    Members(Seq<i32>),
}

impl View for Event {
    type V = EventView;

    open spec fn view(&self) -> EventView {
        match self {
            Event::Connected => EventView::Connected,
            Event::Unavailable => EventView::Unavailable,
            Event::Failed => EventView::Failed,
            Event::Done => EventView::Done,
            Event::Text(text) => EventView::Text(text@),
            Event::Number(number) => EventView::Number(*number),
            Event::Fields(fields) => EventView::Fields(fields.deep_view()),
            Event::Members(members) => EventView::Members(members@),
        }
    }
}

/// The views of a list of users.
pub open spec fn users_view(users: Seq<User>) -> Seq<UserView> {
    users.map_values(|user: User| user@)
}

/// What an operation ends with.
#[derive(Debug, Clone, PartialEq)]
pub enum Outcome {
    /// The user asked for, or the user as it stands after the change.
    User(User),
    /// The user with its password hash.
    Private(PrivateUser),
    /// The users listed.
    Users(Vec<User>),
    /// The token of a user.
    Token(String),
    /// The change was made, and there is nothing to hand back.
    Done,
    /// The operation failed.
    Failed(AuthError),
}

/// An [`Outcome`] by the views of what it holds.
pub enum OutcomeView {
    User(UserView),
    Private(PrivateUserView),
    Users(Seq<UserView>),
    Token(Seq<char>),
    Done,
    Failed(AuthError),
}

impl View for Outcome {
    type V = OutcomeView;

    open spec fn view(&self) -> OutcomeView {
        match self {
            Outcome::User(user) => OutcomeView::User(user@),
            Outcome::Private(user) => OutcomeView::Private(user@),
            Outcome::Users(users) => OutcomeView::Users(users_view(users@)),
            Outcome::Token(token) => OutcomeView::Token(token@),
            Outcome::Done => OutcomeView::Done,
            Outcome::Failed(error) => OutcomeView::Failed(*error),
        }
    }
}

impl Outcome {
    /// The outcome of an operation that hands back a user.
    pub fn into_user(self) -> (result: Result<User, AuthError>)
        ensures
            match self {
                Outcome::User(user) => result == Ok::<User, AuthError>(user),
                Outcome::Failed(error) => result == Err::<User, AuthError>(error),
                _ => result == Err::<User, AuthError>(AuthError::IOError),
            },
    {
        match self {
            Outcome::User(user) => Ok(user),
            Outcome::Failed(error) => Err(error),
            _ => Err(AuthError::IOError),
        }
    }

    /// The outcome of an operation that hands back a user with its password hash.
    pub fn into_private_user(self) -> (result: Result<PrivateUser, AuthError>)
        ensures
            match self {
                Outcome::Private(user) => result == Ok::<PrivateUser, AuthError>(user),
                Outcome::Failed(error) => result == Err::<PrivateUser, AuthError>(error),
                _ => result == Err::<PrivateUser, AuthError>(AuthError::IOError),
            },
    {
        match self {
            Outcome::Private(user) => Ok(user),
            Outcome::Failed(error) => Err(error),
            _ => Err(AuthError::IOError),
        }
    }

    /// The outcome of an operation that hands back a list of users.
    pub fn into_users(self) -> (result: Result<Vec<User>, AuthError>)
        ensures
            match self {
                Outcome::Users(users) => result == Ok::<Vec<User>, AuthError>(users),
                Outcome::Failed(error) => result == Err::<Vec<User>, AuthError>(error),
                _ => result == Err::<Vec<User>, AuthError>(AuthError::IOError),
            },
    {
        match self {
            Outcome::Users(users) => Ok(users),
            Outcome::Failed(error) => Err(error),
            _ => Err(AuthError::IOError),
        }
    }

    /// The outcome of an operation that hands back a token.
    pub fn into_token(self) -> (result: Result<String, AuthError>)
        ensures
            match self {
                Outcome::Token(token) => result == Ok::<String, AuthError>(token),
                Outcome::Failed(error) => result == Err::<String, AuthError>(error),
                _ => result == Err::<String, AuthError>(AuthError::IOError),
            },
    {
        match self {
            Outcome::Token(token) => Ok(token),
            Outcome::Failed(error) => Err(error),
            _ => Err(AuthError::IOError),
        }
    }

    /// The outcome of an operation that hands nothing back: the error, if any.
    pub fn into_error(self) -> (result: Option<AuthError>)
        ensures
            match self {
                Outcome::Done => result is None,
                Outcome::Failed(error) => result == Some(error),
                _ => result == Some(AuthError::IOError),
            },
    {
        match self {
            Outcome::Done => None,
            Outcome::Failed(error) => Some(error),
            _ => Some(AuthError::IOError),
        }
    }
}

} // verus!

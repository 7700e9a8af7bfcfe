//! One operation on the store as an exchange with the backend.
//!
//! The store never talks to the backend itself. An operation starts as an
//! [`Exchange`]; the driver acquires a connection and hands the exchange what
//! happened, and the exchange answers with the next command to run or with
//! the outcome. What an exchange does at each step is the function
//! [`advance`].

use std::collections::HashMap;
use vstd::prelude::*;
use vstd::string::*;
use vstd::utf8::encode_utf8;

use crate::account::{
    public_user, PrivateUserView, Role, RoleView, User, UserStatus, UserView,
};
use crate::digest::{md5_hex, md5_hex_digest};
use crate::error::AuthError;
use crate::redisdb::command::{
    users_view, Command, CommandView, Event, EventView, Outcome, OutcomeView, TOKEN_TTL,
};
use crate::redisdb::record::{
    attributes_json, attributes_to_json, decode_user, decoded_user, encode_new_user, new_record,
};
use crate::redisdb::schema::{id_key, id_key_text, key, key_text, single_key, StorageNames};
use crate::redisdb::stored::lemma_new_record_reads_back;

verus! {

/// The operations of the store.
#[derive(Debug, Clone, Copy, PartialEq, Eq, Structural)]
pub enum Kind {
    AddUser,
    GetUserById,
    GetUserByName,
    GetUserByNameAndPwd,
    DeleteUser,
    ListUsers,
    EnableUser,
    DisableUser,
    GetToken,
    AddToken,
    GetUserByToken,
    DeleteToken,
    AddUserRole,
}

/// What an exchange is waiting for.
#[derive(Debug, Clone, Copy, PartialEq, Eq, Structural)]
pub enum Stage {
    /// A connection.
    Connecting,
    /// The record of the user that the operation is about.
    Record,
    /// The name of a user: by id, or by token.
    Name,
    /// A fresh id from the allocator.
    Allocating,
    /// The write of the new user's name under its id.
    Indexing,
    /// The entry of the new id in the ordered set.
    Enlisting,
    /// The write of the new user's record.
    Storing,
    /// The record as it stands after a change.
    Reread,
    /// The write of one field of a record.
    Updating,
    /// The ids of the users to list.
    Ranging,
    /// The token of a user.
    TokenText,
    /// The write of a user's token.
    BindUser,
    /// The write of a token's user.
    BindToken,
    /// The expiry of a user's token.
    ExpireUser,
    /// The expiry of a token's user.
    ExpireToken,
    /// The removal of a user's record.
    RemoveRecord,
    /// The removal of a user's name under its id.
    RemoveIndex,
    /// The removal of an id from the ordered set.
    RemoveMember,
    /// The removal of a user's token.
    UnbindUser,
    /// The removal of a token's user.
    UnbindToken,
}

/// An operation under way: what was asked, and what has been learnt so far.
pub struct Exchange {
    pub(crate) prefix: String,
    pub(crate) kind: Kind,
    pub(crate) stage: Stage,
    pub(crate) name: String,
    pub(crate) token: String,
    pub(crate) email: String,
    pub(crate) password: String,
    pub(crate) attributes: HashMap<String, String>,
    pub(crate) role: Role,
    pub(crate) id: i32,
    pub(crate) from: isize,
    pub(crate) count: isize,
    pub(crate) ids: Vec<i32>,
    pub(crate) cursor: usize,
    pub(crate) users: Vec<User>,
    pub(crate) found: Option<User>,
}

/// The mathematical content of an [`Exchange`].
pub struct ExchangeView {
    /// The prefix of every key.
    pub prefix: Seq<char>,
    /// The operation.
    pub kind: Kind,
    /// What the exchange is waiting for.
    pub stage: Stage,
    /// The name of the user that the operation is about, once known.
    pub name: Seq<char>,
    /// The token that the operation is about.
    pub token: Seq<char>,
    /// The e-mail address of a new user.
    pub email: Seq<char>,
    /// The password given, in plain text.
    pub password: Seq<char>,
    /// The attributes of a new user.
    pub attributes: Map<String, String>,
    /// The role to give.
    pub role: RoleView,
    /// The id that the operation is about, once known.
    pub id: i32,
    /// The first rank to list.
    pub from: isize,
    /// The last rank to list.
    pub count: isize,
    /// The ids to list, in the order of the listing.
    pub ids: Seq<i32>,
    /// How many of `ids` have been asked for.
    pub cursor: nat,
    /// The users listed so far.
    pub users: Seq<UserView>,
    /// The user that a token was resolved to.
    pub found: Option<UserView>,
}

/// The next thing to happen in an exchange.
pub enum Step {
    /// Run the command on the connection and hand what came back to the
    /// exchange.
    Continue(Exchange, Command),
    /// The operation has ended: release the connection.
    Finish(Outcome),
}

/// A [`Step`] by the views of what it holds.
pub enum StepView {
    Continue(ExchangeView, CommandView),
    Finish(OutcomeView),
}

impl View for Exchange {
    type V = ExchangeView;

    open(crate) spec fn view(&self) -> ExchangeView {
        ExchangeView {
            prefix: self.prefix@,
            kind: self.kind,
            stage: self.stage,
            name: self.name@,
            token: self.token@,
            email: self.email@,
            password: self.password@,
            attributes: self.attributes@,
            role: self.role@,
            id: self.id,
            from: self.from,
            count: self.count,
            ids: self.ids@,
            cursor: self.cursor as nat,
            users: users_view(self.users@),
            found: match self.found {
                Some(user) => Some(user@),
                None => None,
            },
        }
    }
}

impl View for Step {
    type V = StepView;

    open spec fn view(&self) -> StepView {
        match self {
            Step::Continue(exchange, command) => StepView::Continue(exchange@, command@),
            Step::Finish(outcome) => StepView::Finish(outcome@),
        }
    }
}

impl ExchangeView {
    /// An operation of the given kind before anything is known: waiting for
    /// a connection, with every text empty.
    pub open spec fn blank(prefix: Seq<char>, kind: Kind) -> ExchangeView {
        ExchangeView {
            prefix,
            kind,
            stage: Stage::Connecting,
            name: Seq::empty(),
            token: Seq::empty(),
            email: Seq::empty(),
            password: Seq::empty(),
            attributes: Map::empty(),
            role: RoleView::Users,
            id: 0,
            from: 0,
            count: 0,
            ids: Seq::empty(),
            cursor: 0,
            users: Seq::empty(),
            found: None,
        }
    }

    /// The start of `add_user`.
    pub open spec fn add_user(
        prefix: Seq<char>,
        name: Seq<char>,
        email: Seq<char>,
        password: Seq<char>,
        attributes: Map<String, String>,
    ) -> ExchangeView {
        ExchangeView {
            name,
            email,
            password,
            attributes,
            ..ExchangeView::blank(prefix, Kind::AddUser)
        }
    }

    /// The start of `get_user_by_id`.
    pub open spec fn get_user_by_id(prefix: Seq<char>, user_id: i32) -> ExchangeView {
        ExchangeView { id: user_id, ..ExchangeView::blank(prefix, Kind::GetUserById) }
    }

    /// The start of `get_user_by_name`.
    pub open spec fn get_user_by_name(prefix: Seq<char>, username: Seq<char>) -> ExchangeView {
        ExchangeView { name: username, ..ExchangeView::blank(prefix, Kind::GetUserByName) }
    }

    /// The start of `get_user_by_name_and_pwd`.
    pub open spec fn get_user_by_name_and_pwd(
        prefix: Seq<char>,
        username: Seq<char>,
        password: Seq<char>,
    ) -> ExchangeView {
        ExchangeView {
            name: username,
            password,
            ..ExchangeView::blank(prefix, Kind::GetUserByNameAndPwd)
        }
    }

    /// The start of `delete_user`.
    pub open spec fn delete_user(prefix: Seq<char>, user_id: i32) -> ExchangeView {
        ExchangeView { id: user_id, ..ExchangeView::blank(prefix, Kind::DeleteUser) }
    }

    /// The start of `list_users`.
    pub open spec fn list_users(prefix: Seq<char>, from: isize, count: isize) -> ExchangeView {
        ExchangeView { from, count, ..ExchangeView::blank(prefix, Kind::ListUsers) }
    }

    /// The start of `enable_user`.
    pub open spec fn enable_user(prefix: Seq<char>, username: Seq<char>) -> ExchangeView {
        ExchangeView { name: username, ..ExchangeView::blank(prefix, Kind::EnableUser) }
    }

    /// The start of `disable_user`.
    pub open spec fn disable_user(prefix: Seq<char>, username: Seq<char>) -> ExchangeView {
        ExchangeView { name: username, ..ExchangeView::blank(prefix, Kind::DisableUser) }
    }

    /// The start of `get_token`.
    pub open spec fn get_token(prefix: Seq<char>, username: Seq<char>) -> ExchangeView {
        ExchangeView { name: username, ..ExchangeView::blank(prefix, Kind::GetToken) }
    }

    /// The start of `add_token`.
    pub open spec fn add_token(
        prefix: Seq<char>,
        username: Seq<char>,
        token: Seq<char>,
    ) -> ExchangeView {
        ExchangeView { name: username, token, ..ExchangeView::blank(prefix, Kind::AddToken) }
    }

    /// The start of `get_user_by_token`.
    pub open spec fn get_user_by_token(prefix: Seq<char>, token: Seq<char>) -> ExchangeView {
        ExchangeView { token, ..ExchangeView::blank(prefix, Kind::GetUserByToken) }
    }

    /// The start of `delete_token`.
    pub open spec fn delete_token(prefix: Seq<char>, token: Seq<char>) -> ExchangeView {
        ExchangeView { token, ..ExchangeView::blank(prefix, Kind::DeleteToken) }
    }

    /// The start of `add_user_role`.
    pub open spec fn add_user_role(
        prefix: Seq<char>,
        username: Seq<char>,
        role: RoleView,
    ) -> ExchangeView {
        ExchangeView { name: username, role, ..ExchangeView::blank(prefix, Kind::AddUserRole) }
    }

    /// The user that a registration registers, once it has its id: named
    /// and addressed as given, with the digest of the password, the status
    /// `Created`, the role `Users` and the attributes as given.
    pub open spec fn registered(self) -> PrivateUserView {
        PrivateUserView {
            id: self.id as int,
            name: self.name,
            email: self.email,
            password: password_digest(self.password),
            status: UserStatus::Created,
            role: RoleView::Users,
            attributes: self.attributes,
        }
    }

    /// The key of the record of the user called `name`.
    pub open spec fn record_key(self, name: Seq<char>) -> Seq<char> {
        key_text(self.prefix, StorageNames::Name, name)
    }

    /// The key of the token of the user called `name`.
    pub open spec fn user_token_key(self, name: Seq<char>) -> Seq<char> {
        key_text(self.prefix, StorageNames::UserToken, name)
    }

    /// The key of the user of the token.
    pub open spec fn token_key(self) -> Seq<char> {
        key_text(self.prefix, StorageNames::TokenToken, self.token)
    }

    /// The key of the ordered set of ids.
    pub open spec fn list_key(self) -> Seq<char> {
        key_text(self.prefix, StorageNames::List, Seq::empty())
    }

    /// The key of the id allocator.
    pub open spec fn counter_key(self) -> Seq<char> {
        key_text(self.prefix, StorageNames::Increment, Seq::empty())
    }

    /// Go on to `stage` with `command`.
    pub open spec fn ask(self, stage: Stage, command: CommandView) -> StepView {
        StepView::Continue(ExchangeView { stage, ..self }, command)
    }

    /// Go on to read the record of the user called `name`.
    pub open spec fn ask_record(self, stage: Stage, name: Seq<char>) -> StepView {
        (ExchangeView { name, ..self }).ask(
            stage,
            CommandView::ReadFields { key: self.record_key(name) },
        )
    }

    /// Go on with the listing: ask for the name of the next id, or end with
    /// the users found once every id has been asked for.
    pub open spec fn list_next(self) -> StepView {
        if self.cursor < self.ids.len() {
            (ExchangeView { cursor: self.cursor + 1, ..self }).ask(
                Stage::Name,
                CommandView::ReadText {
                    key: id_key_text(self.prefix, self.ids[self.cursor as int] as int),
                },
            )
        } else {
            finish(OutcomeView::Users(self.users))
        }
    }

    /// What follows the binding of a token, whether or not every step of it
    /// was carried out: nothing more for `add_token`, the user for
    /// `get_user_by_token`, the removal of the binding for `delete_token`.
    pub open spec fn settle(self) -> StepView {
        match self.kind {
            Kind::GetUserByToken => match self.found {
                Some(user) => finish(OutcomeView::User(user)),
                None => fail(AuthError::IOError),
            },
            Kind::DeleteToken => match self.found {
                Some(user) => self.ask(
                    Stage::UnbindUser,
                    CommandView::Delete { key: self.user_token_key(user.name) },
                ),
                None => fail(AuthError::IOError),
            },
            _ => finish(OutcomeView::Done),
        }
    }
}

/// End with `outcome`.
pub open spec fn finish(outcome: OutcomeView) -> StepView {
    StepView::Finish(outcome)
}

/// End with `error`.
pub open spec fn fail(error: AuthError) -> StepView {
    StepView::Finish(OutcomeView::Failed(error))
}

/// The user that an answer to `ReadFields` stands for, if any: a failed read
/// and an empty field map are no user.
pub open spec fn user_read(event: EventView) -> Option<PrivateUserView> {
    match event {
        EventView::Fields(fields) => decoded_user(fields),
        _ => None,
    }
}

/// The digest under which a password is stored.
pub open spec fn password_digest(password: Seq<char>) -> Seq<char> {
    md5_hex(encode_utf8(password))
}

/// With a connection, every operation asks its first question; without one
/// it fails with `IOError`.
pub open spec fn after_connecting(x: ExchangeView, event: EventView) -> StepView {
    if event != EventView::Connected {
        fail(AuthError::IOError)
    } else {
        match x.kind {
            Kind::GetUserById | Kind::DeleteUser => x.ask(
                Stage::Name,
                CommandView::ReadText { key: id_key_text(x.prefix, x.id as int) },
            ),
            Kind::ListUsers => x.ask(
                Stage::Ranging,
                CommandView::Range { key: x.list_key(), start: x.from, stop: x.count },
            ),
            Kind::GetToken => x.ask(
                Stage::TokenText,
                CommandView::ReadText { key: x.user_token_key(x.name) },
            ),
            Kind::AddToken => x.ask(
                Stage::BindUser,
                CommandView::WriteText { key: x.user_token_key(x.name), value: x.token },
            ),
            Kind::GetUserByToken | Kind::DeleteToken => x.ask(
                Stage::Name,
                CommandView::ReadText { key: x.token_key() },
            ),
            _ => x.ask_record(Stage::Record, x.name),
        }
    }
}

/// With the record of the user that the operation is about.
pub open spec fn after_record(x: ExchangeView, event: EventView) -> StepView {
    let user = user_read(event);
    match x.kind {
        Kind::GetUserByName => match user {
            Some(u) => finish(OutcomeView::Private(u)),
            None => fail(AuthError::NotFound),
        },
        Kind::GetUserById => match user {
            Some(u) => finish(OutcomeView::User(u.public())),
            None => fail(AuthError::NotFound),
        },
        Kind::GetUserByNameAndPwd => match user {
            Some(u) => if u.password == password_digest(x.password) {
                finish(OutcomeView::User(u.public()))
            } else {
                fail(AuthError::NotFound)
            },
            None => fail(AuthError::NotFound),
        },
        Kind::AddUser => match user {
            Some(_) => fail(AuthError::DuplicateUsername),
            None => x.ask(
                Stage::Allocating,
                CommandView::Increment { key: x.counter_key(), field: "users"@, delta: 1 },
            ),
        },
        Kind::EnableUser => match user {
            Some(_) => x.ask(
                Stage::Updating,
                CommandView::WriteField {
                    key: x.record_key(x.name),
                    field: "status"@,
                    value: "1"@,
                },
            ),
            None => fail(AuthError::NotFound),
        },
        Kind::DisableUser => match user {
            Some(u) => (ExchangeView { name: u.name, ..x }).ask(
                Stage::Updating,
                CommandView::WriteField {
                    key: x.record_key(x.name),
                    field: "status"@,
                    value: "2"@,
                },
            ),
            None => fail(AuthError::NotFound),
        },
        Kind::AddUserRole => match user {
            Some(u) => (ExchangeView { name: u.name, ..x }).ask(
                Stage::Updating,
                CommandView::WriteField {
                    key: x.record_key(x.name),
                    field: "role"@,
                    value: x.role.text(),
                },
            ),
            None => fail(AuthError::NotFound),
        },
        Kind::ListUsers => match user {
            Some(u) => (ExchangeView { users: x.users.push(u.public()), ..x }).list_next(),
            None => x.list_next(),
        },
        Kind::GetUserByToken | Kind::DeleteToken => match user {
            Some(u) => if u.status == UserStatus::Active {
                (ExchangeView { found: Some(u.public()), ..x }).ask(
                    Stage::BindUser,
                    CommandView::WriteText { key: x.user_token_key(x.name), value: x.token },
                )
            } else {
                fail(AuthError::NotActive)
            },
            None => fail(AuthError::NotFound),
        },
        _ => fail(AuthError::IOError),
    }
}

/// With the name that an id or a token stands for.
pub open spec fn after_name(x: ExchangeView, event: EventView) -> StepView {
    match x.kind {
        Kind::GetUserById | Kind::GetUserByToken | Kind::DeleteToken => match event {
            EventView::Text(name) => x.ask_record(Stage::Record, name),
            _ => fail(AuthError::NotFound),
        },
        Kind::DeleteUser => match event {
            EventView::Text(name) => x.ask(
                Stage::RemoveRecord,
                CommandView::Delete { key: x.record_key(name) },
            ),
            _ => x.ask(
                Stage::RemoveIndex,
                CommandView::Delete { key: id_key_text(x.prefix, x.id as int) },
            ),
        },
        Kind::ListUsers => match event {
            EventView::Text(name) => x.ask_record(Stage::Record, name),
            _ => x.list_next(),
        },
        _ => fail(AuthError::IOError),
    }
}

/// With the answer to a write of `add_user`: each write must succeed for the
/// next to be made, and a failed write ends the operation with `IOError`.
pub open spec fn after_write(x: ExchangeView, event: EventView, now: i64) -> StepView {
    match x.stage {
        Stage::Allocating => match event {
            EventView::Number(id) => (ExchangeView { id, ..x }).ask(
                Stage::Indexing,
                CommandView::WriteText { key: id_key_text(x.prefix, id as int), value: x.name },
            ),
            _ => fail(AuthError::IOError),
        },
        Stage::Indexing => if event == EventView::Done {
            x.ask(
                Stage::Enlisting,
                CommandView::Enlist { key: x.list_key(), member: x.id, score: now },
            )
        } else {
            fail(AuthError::IOError)
        },
        Stage::Enlisting => match attributes_json(x.attributes) {
            Some(json) => if event == EventView::Done {
                x.ask(
                    Stage::Storing,
                    CommandView::WriteFields {
                        key: x.record_key(x.name),
                        items: new_record(
                            x.id as int,
                            x.name,
                            x.email,
                            password_digest(x.password),
                            json,
                        ),
                    },
                )
            } else {
                fail(AuthError::IOError)
            },
            None => fail(AuthError::IOError),
        },
        _ => if event == EventView::Done {
            x.ask_record(Stage::Reread, x.name)
        } else {
            fail(AuthError::IOError)
        },
    }
}

/// With the answer to the write of one field: the record is read again, or
/// the operation fails, with `IOError` for a role and `NotFound` for a status.
pub open spec fn after_updating(x: ExchangeView, event: EventView) -> StepView {
    if event == EventView::Done {
        x.ask_record(Stage::Reread, x.name)
    } else if x.kind == Kind::AddUserRole {
        fail(AuthError::IOError)
    } else {
        fail(AuthError::NotFound)
    }
}

/// With the answer to a step of a token's binding. The binding is written in
/// both directions, then each direction gets its expiry. A step that fails
/// ends the binding, and is not reported.
pub open spec fn after_binding(x: ExchangeView, event: EventView) -> StepView {
    if event != EventView::Done {
        x.settle()
    } else {
        match x.stage {
            Stage::BindUser => x.ask(
                Stage::BindToken,
                CommandView::WriteText { key: x.token_key(), value: x.name },
            ),
            Stage::BindToken => x.ask(
                Stage::ExpireUser,
                CommandView::Expire { key: x.user_token_key(x.name), seconds: TOKEN_TTL },
            ),
            Stage::ExpireUser => x.ask(
                Stage::ExpireToken,
                CommandView::Expire { key: x.token_key(), seconds: TOKEN_TTL },
            ),
            _ => x.settle(),
        }
    }
}

/// With the answer to a removal: whatever it was, the next removal is made.
pub open spec fn after_removal(x: ExchangeView) -> StepView {
    match x.stage {
        Stage::RemoveRecord => x.ask(
            Stage::RemoveIndex,
            CommandView::Delete { key: id_key_text(x.prefix, x.id as int) },
        ),
        Stage::RemoveIndex => x.ask(
            Stage::RemoveMember,
            CommandView::Delist { key: x.list_key(), member: x.id },
        ),
        Stage::UnbindUser => x.ask(Stage::UnbindToken, CommandView::Delete { key: x.token_key() }),
        _ => finish(OutcomeView::Done),
    }
}

/// Whether the record that a step writes, if it writes one, reads back as
/// the user that the registration was given.
pub open spec fn writes_what_was_given(x: ExchangeView, step: StepView) -> bool {
    step matches StepView::Continue(_, CommandView::WriteFields { items, .. }) ==> decoded_user(
        items,
    ) == Some(x.registered())
}

/// What an exchange does with what came back, at the time `now`.
pub open spec fn advance(x: ExchangeView, event: EventView, now: i64) -> StepView {
    match x.stage {
        Stage::Connecting => after_connecting(x, event),
        Stage::Record => after_record(x, event),
        Stage::Name => after_name(x, event),
        Stage::Allocating | Stage::Indexing | Stage::Enlisting | Stage::Storing => after_write(
            x,
            event,
            now,
        ),
        Stage::Reread => match user_read(event) {
            Some(u) => finish(OutcomeView::User(u.public())),
            None => fail(AuthError::NotFound),
        },
        Stage::Updating => after_updating(x, event),
        Stage::Ranging => match event {
            EventView::Members(ids) => (ExchangeView { ids, cursor: 0, ..x }).list_next(),
            _ => fail(AuthError::NotFound),
        },
        Stage::TokenText => match event {
            EventView::Text(token) => finish(OutcomeView::Token(token)),
            _ => fail(AuthError::NotFound),
        },
        Stage::BindUser | Stage::BindToken | Stage::ExpireUser | Stage::ExpireToken => after_binding(
            x,
            event,
        ),
        _ => after_removal(x),
    }
}

/// `chrono::Local::now()` and `timestamp()` on it: the seconds since the
/// epoch on this machine's clock. Trusted, with nothing claimed of the number.
#[verifier::external_body]
fn unix_time() -> i64 {
    chrono::Local::now().timestamp()
}

impl Exchange {
    /// An operation of the given kind before anything is known.
    pub(crate) fn blank(prefix: &str, kind: Kind) -> (x: Exchange)
        ensures
            x@ == ExchangeView::blank(prefix@, kind),
    {
        let users: Vec<User> = Vec::new();
        assert(users_view(users@) =~= Seq::empty());
        Exchange {
            prefix: String::from_str(prefix),
            kind,
            stage: Stage::Connecting,
            name: String::new(),
            token: String::new(),
            email: String::new(),
            password: String::new(),
            attributes: HashMap::new(),
            role: Role::Users,
            id: 0,
            from: 0,
            count: 0,
            ids: Vec::new(),
            cursor: 0,
            users,
            found: None,
        }
    }

    fn ask(self, stage: Stage, command: Command) -> (step: Step)
        ensures
            step@ == self@.ask(stage, command@),
    {
        Step::Continue(Exchange { stage, ..self }, command)
    }

    fn ask_record(self, stage: Stage, name: String) -> (step: Step)
        ensures
            step@ == self@.ask_record(stage, name@),
    {
        let key = key(self.prefix.as_str(), StorageNames::Name, name.as_str());
        Step::Continue(Exchange { stage, name, ..self }, Command::ReadFields { key })
    }

    fn ask_own_record(self, stage: Stage) -> (step: Step)
        ensures
            step@ == self@.ask_record(stage, self@.name),
    {
        let key = key(self.prefix.as_str(), StorageNames::Name, self.name.as_str());
        Step::Continue(Exchange { stage, ..self }, Command::ReadFields { key })
    }

    fn list_next(self) -> (step: Step)
        ensures
            step@ == self@.list_next(),
    {
        if self.cursor < self.ids.len() {
            let key = id_key(self.prefix.as_str(), self.ids[self.cursor]);
            let cursor = self.cursor + 1;
            Step::Continue(Exchange { stage: Stage::Name, cursor, ..self }, Command::ReadText { key })
        } else {
            Step::Finish(Outcome::Users(self.users))
        }
    }

    fn settle(self) -> (step: Step)
        ensures
            step@ == self@.settle(),
    {
        match self.kind {
            Kind::GetUserByToken => match self.found {
                Some(user) => Step::Finish(Outcome::User(user)),
                None => Step::Finish(Outcome::Failed(AuthError::IOError)),
            },
            Kind::DeleteToken => match self.found {
                Some(user) => {
                    let key = key(
                        self.prefix.as_str(),
                        StorageNames::UserToken,
                        user.name.as_str(),
                    );
                    Step::Continue(
                        Exchange { stage: Stage::UnbindUser, found: Some(user), ..self },
                        Command::Delete { key },
                    )
                },
                None => Step::Finish(Outcome::Failed(AuthError::IOError)),
            },
            _ => Step::Finish(Outcome::Done),
        }
    }

    fn user_token_key(&self) -> (key: String)
        ensures
            key@ == self@.user_token_key(self@.name),
    {
        key(self.prefix.as_str(), StorageNames::UserToken, self.name.as_str())
    }

    fn token_key(&self) -> (key: String)
        ensures
            key@ == self@.token_key(),
    {
        key(self.prefix.as_str(), StorageNames::TokenToken, self.token.as_str())
    }

    fn own_id_key(&self) -> (key: String)
        ensures
            key@ == id_key_text(self@.prefix, self@.id as int),
    {
        id_key(self.prefix.as_str(), self.id)
    }

    fn list_key(&self) -> (key: String)
        ensures
            key@ == self@.list_key(),
    {
        single_key(self.prefix.as_str(), StorageNames::List)
    }

    fn connected(self, event: Event) -> (step: Step)
        ensures
            step@ == after_connecting(self@, event@),
    {
        match event {
            Event::Connected => match self.kind {
                Kind::GetUserById | Kind::DeleteUser => {
                    let key = self.own_id_key();
                    self.ask(Stage::Name, Command::ReadText { key })
                },
                Kind::ListUsers => {
                    let key = self.list_key();
                    let command = Command::Range { key, start: self.from, stop: self.count };
                    self.ask(Stage::Ranging, command)
                },
                Kind::GetToken => {
                    let key = self.user_token_key();
                    self.ask(Stage::TokenText, Command::ReadText { key })
                },
                Kind::AddToken => {
                    let key = self.user_token_key();
                    let command = Command::WriteText { key, value: self.token.clone() };
                    self.ask(Stage::BindUser, command)
                },
                Kind::GetUserByToken | Kind::DeleteToken => {
                    let key = self.token_key();
                    self.ask(Stage::Name, Command::ReadText { key })
                },
                _ => self.ask_own_record(Stage::Record),
            },
            _ => Step::Finish(Outcome::Failed(AuthError::IOError)),
        }
    }

    fn write_field(self, name: String, field: &str, value: String) -> (step: Step)
        ensures
            step@ == (ExchangeView { name: name@, ..self@ }).ask(
                Stage::Updating,
                CommandView::WriteField {
                    key: self@.record_key(self@.name),
                    field: field@,
                    value: value@,
                },
            ),
    {
        let key = key(self.prefix.as_str(), StorageNames::Name, self.name.as_str());
        let command = Command::WriteField { key, field: String::from_str(field), value };
        Step::Continue(Exchange { stage: Stage::Updating, name, ..self }, command)
    }

    fn record_read(self, event: Event) -> (step: Step)
        ensures
            step@ == after_record(self@, event@),
    {
        let user = match event {
            Event::Fields(fields) => decode_user(&fields),
            _ => None,
        };
        assert(match user {
            Some(u) => user_read(event@) == Some(u@),
            None => user_read(event@) is None,
        });
        match self.kind {
            Kind::GetUserByName => match user {
                Some(u) => Step::Finish(Outcome::Private(u)),
                None => Step::Finish(Outcome::Failed(AuthError::NotFound)),
            },
            Kind::GetUserById => match user {
                Some(u) => Step::Finish(Outcome::User(public_user(u))),
                None => Step::Finish(Outcome::Failed(AuthError::NotFound)),
            },
            Kind::GetUserByNameAndPwd => match user {
                Some(u) => {
                    let digest = md5_hex_digest(self.password.as_str().as_bytes());
                    if u.has_password(digest.as_str()) {
                        Step::Finish(Outcome::User(public_user(u)))
                    } else {
                        Step::Finish(Outcome::Failed(AuthError::NotFound))
                    }
                },
                None => Step::Finish(Outcome::Failed(AuthError::NotFound)),
            },
            Kind::AddUser => match user {
                Some(_) => Step::Finish(Outcome::Failed(AuthError::DuplicateUsername)),
                None => {
                    let key = single_key(self.prefix.as_str(), StorageNames::Increment);
                    let command = Command::Increment {
                        key,
                        field: String::from_str("users"),
                        delta: 1,
                    };
                    self.ask(Stage::Allocating, command)
                },
            },
            Kind::EnableUser => match user {
                Some(_) => {
                    let name = self.name.clone();
                    self.write_field(name, "status", String::from_str("1"))
                },
                None => Step::Finish(Outcome::Failed(AuthError::NotFound)),
            },
            Kind::DisableUser => match user {
                Some(u) => self.write_field(u.name, "status", String::from_str("2")),
                None => Step::Finish(Outcome::Failed(AuthError::NotFound)),
            },
            Kind::AddUserRole => match user {
                Some(u) => {
                    let value = self.role.to_string();
                    self.write_field(u.name, "role", value)
                },
                None => Step::Finish(Outcome::Failed(AuthError::NotFound)),
            },
            Kind::ListUsers => match user {
                Some(u) => {
                    let ghost before = self.users@;
                    let mut users = self.users;
                    let user = public_user(u);
                    users.push(user);
                    assert(users_view(users@) =~= users_view(before).push(user@));
                    (Exchange { users, ..self }).list_next()
                },
                None => self.list_next(),
            },
            Kind::GetUserByToken | Kind::DeleteToken => match user {
                Some(u) => {
                    if u.status == UserStatus::Active {
                        let key = self.user_token_key();
                        let command = Command::WriteText { key, value: self.token.clone() };
                        (Exchange { found: Some(public_user(u)), ..self }).ask(
                            Stage::BindUser,
                            command,
                        )
                    } else {
                        Step::Finish(Outcome::Failed(AuthError::NotActive))
                    }
                },
                None => Step::Finish(Outcome::Failed(AuthError::NotFound)),
            },
            _ => Step::Finish(Outcome::Failed(AuthError::IOError)),
        }
    }

    fn name_read(self, event: Event) -> (step: Step)
        ensures
            step@ == after_name(self@, event@),
    {
        match self.kind {
            Kind::GetUserById | Kind::GetUserByToken | Kind::DeleteToken => match event {
                Event::Text(name) => self.ask_record(Stage::Record, name),
                _ => Step::Finish(Outcome::Failed(AuthError::NotFound)),
            },
            Kind::DeleteUser => match event {
                Event::Text(name) => {
                    let key = key(self.prefix.as_str(), StorageNames::Name, name.as_str());
                    self.ask(Stage::RemoveRecord, Command::Delete { key })
                },
                _ => {
                    let key = self.own_id_key();
                    self.ask(Stage::RemoveIndex, Command::Delete { key })
                },
            },
            Kind::ListUsers => match event {
                Event::Text(name) => self.ask_record(Stage::Record, name),
                _ => self.list_next(),
            },
            _ => Step::Finish(Outcome::Failed(AuthError::IOError)),
        }
    }

    fn written(self, event: Event, now: i64) -> (step: Step)
        ensures
            step@ == after_write(self@, event@, now),
            writes_what_was_given(self@, step@),
    {
        match self.stage {
            Stage::Allocating => match event {
                Event::Number(id) => {
                    let key = id_key(self.prefix.as_str(), id);
                    let command = Command::WriteText { key, value: self.name.clone() };
                    (Exchange { id, ..self }).ask(Stage::Indexing, command)
                },
                _ => Step::Finish(Outcome::Failed(AuthError::IOError)),
            },
            Stage::Indexing => match event {
                Event::Done => {
                    let key = self.list_key();
                    let command = Command::Enlist { key, member: self.id, score: now };
                    self.ask(Stage::Enlisting, command)
                },
                _ => Step::Finish(Outcome::Failed(AuthError::IOError)),
            },
            Stage::Enlisting => match attributes_to_json(&self.attributes) {
                Ok(json) => match event {
                    Event::Done => {
                        let digest = md5_hex_digest(self.password.as_str().as_bytes());
                        proof {
                            lemma_new_record_reads_back(
                                self.id,
                                self.name@,
                                self.email@,
                                digest@,
                                json@,
                            );
                        }
                        let items = encode_new_user(
                            self.id,
                            self.name.as_str(),
                            self.email.as_str(),
                            digest,
                            json,
                        );
                        let key = key(
                            self.prefix.as_str(),
                            StorageNames::Name,
                            self.name.as_str(),
                        );
                        self.ask(Stage::Storing, Command::WriteFields { key, items })
                    },
                    _ => Step::Finish(Outcome::Failed(AuthError::IOError)),
                },
                Err(_) => Step::Finish(Outcome::Failed(AuthError::IOError)),
            },
            _ => match event {
                Event::Done => self.ask_own_record(Stage::Reread),
                _ => Step::Finish(Outcome::Failed(AuthError::IOError)),
            },
        }
    }

    fn updated(self, event: Event) -> (step: Step)
        ensures
            step@ == after_updating(self@, event@),
    {
        match event {
            Event::Done => self.ask_own_record(Stage::Reread),
            _ => if self.kind == Kind::AddUserRole {
                Step::Finish(Outcome::Failed(AuthError::IOError))
            } else {
                Step::Finish(Outcome::Failed(AuthError::NotFound))
            },
        }
    }

    fn bound(self, event: Event) -> (step: Step)
        ensures
            step@ == after_binding(self@, event@),
    {
        match event {
            Event::Done => match self.stage {
                Stage::BindUser => {
                    let key = self.token_key();
                    let command = Command::WriteText { key, value: self.name.clone() };
                    self.ask(Stage::BindToken, command)
                },
                Stage::BindToken => {
                    let key = self.user_token_key();
                    self.ask(Stage::ExpireUser, Command::Expire { key, seconds: TOKEN_TTL })
                },
                Stage::ExpireUser => {
                    let key = self.token_key();
                    self.ask(Stage::ExpireToken, Command::Expire { key, seconds: TOKEN_TTL })
                },
                _ => self.settle(),
            },
            _ => self.settle(),
        }
    }

    fn removed(self) -> (step: Step)
        ensures
            step@ == after_removal(self@),
    {
        match self.stage {
            Stage::RemoveRecord => {
                let key = self.own_id_key();
                self.ask(Stage::RemoveIndex, Command::Delete { key })
            },
            Stage::RemoveIndex => {
                let key = self.list_key();
                let command = Command::Delist { key, member: self.id };
                self.ask(Stage::RemoveMember, command)
            },
            Stage::UnbindUser => {
                let key = self.token_key();
                self.ask(Stage::UnbindToken, Command::Delete { key })
            },
            _ => Step::Finish(Outcome::Done),
        }
    }

    /// Whether the next step puts the time into its command.
    fn reads_clock(&self) -> (reads: bool)
        ensures
            reads == (self@.stage == Stage::Indexing),
    {
        self.stage == Stage::Indexing
    }

    /// Takes what came back from the backend and says what to do next. The
    /// one command that holds the time gets the time of this call. The record
    /// that a registration writes reads back as the user that it was given.
    pub fn step(self, event: Event) -> (step: Step)
        ensures
            exists|now: i64| step@ == advance(self@, event@, now),
            writes_what_was_given(self@, step@),
    {
        let now = if self.reads_clock() {
            unix_time()
        } else {
            0
        };
        self.step_at(event, now)
    }

    /// Takes what came back from the backend at the time `now` (seconds
    /// since the epoch) and says what to do next.
    pub fn step_at(self, event: Event, now: i64) -> (step: Step)
        ensures
            step@ == advance(self@, event@, now),
            writes_what_was_given(self@, step@),
    {
        match self.stage {
            Stage::Connecting => self.connected(event),
            Stage::Record => self.record_read(event),
            Stage::Name => self.name_read(event),
            Stage::Allocating | Stage::Indexing | Stage::Enlisting | Stage::Storing => self.written(
                event,
                now,
            ),
            Stage::Reread => {
                let user = match event {
                    Event::Fields(fields) => decode_user(&fields),
                    _ => None,
                };
                match user {
                    Some(u) => Step::Finish(Outcome::User(public_user(u))),
                    None => Step::Finish(Outcome::Failed(AuthError::NotFound)),
                }
            },
            Stage::Updating => self.updated(event),
            Stage::Ranging => match event {
                Event::Members(ids) => (Exchange { ids, cursor: 0, ..self }).list_next(),
                _ => Step::Finish(Outcome::Failed(AuthError::NotFound)),
            },
            Stage::TokenText => match event {
                Event::Text(token) => Step::Finish(Outcome::Token(token)),
                _ => Step::Finish(Outcome::Failed(AuthError::NotFound)),
            },
            Stage::BindUser | Stage::BindToken | Stage::ExpireUser | Stage::ExpireToken => self.bound(
                event,
            ),
            _ => self.removed(),
        }
    }
}

} // verus!

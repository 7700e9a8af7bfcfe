//! The HTTP interface: what each route answers, given the request and the
//! store.

pub mod condition;
pub mod form;

use vstd::prelude::*;
use vstd::string::*;

use crate::account::{Role, RoleView, User, UserView};
use crate::api::condition::LimitOffset;
use crate::api::form::{SignIn, SignUp};
use crate::decorator::AuthEntity;
use crate::entity::{Answer, Call, Entity};
use crate::error::AuthError;
use crate::limitation::user::{AdminUser, AuthorizedUser};
use crate::net::key::{generate_api_key, usable_secret, valid_api_key, PrivateKey};
use crate::net::uri::RequestedUriString;
use crate::redisdb::command::users_view;
use crate::text::{decimal, decimal_text, replace_all, replaced};

verus! {

/// The ranks that a listing shows where the request names none.
pub const FIRST_RANK: isize = 0;

/// The last of the ranks that a listing shows where the request names none.
pub const LAST_RANK: isize = 10;

/// The status of an answer.
#[derive(Debug, Clone, Copy, PartialEq, Eq, Structural)]
pub enum Status {
    /// 200, `Ok`.
    Success,
    Created,
    BadRequest,
    Unauthorized,
    NotFound,
    Conflict,
    InternalServerError,
}

/// What a route answers.
#[derive(Debug, Clone, PartialEq)]
pub enum Response {
    /// A user, as `{"data": user}`.
    User { status: Status, user: User },
    /// A list of users, as `{"data": [user, ..]}`, with the status `Success`.
    Users { users: Vec<User> },
    /// A token, as `{"data": {"token": token}}`, with the status `Success`.
    Token { token: String },
    /// A new user, with the status `Created` and its address.
    Created { location: String, user: User },
    /// An error, as `{"error": error}`.
    Error { status: Status, error: String },
    /// The address to ask instead, with the status `Found`.
    Redirect { location: String },
}

/// A [`Response`] by the views of what it holds.
pub enum ResponseView {
    User { status: Status, user: UserView },
    Users { users: Seq<UserView> },
    Token { token: Seq<char> },
    Created { location: Seq<char>, user: UserView },
    Error { status: Status, error: Seq<char> },
    Redirect { location: Seq<char> },
}

impl View for Response {
    type V = ResponseView;

    open spec fn view(&self) -> ResponseView {
        match self {
            Response::User { status, user } => ResponseView::User { status: *status, user: user@ },
            Response::Users { users } => ResponseView::Users { users: users_view(users@) },
            Response::Token { token } => ResponseView::Token { token: token@ },
            Response::Created { location, user } => ResponseView::Created {
                location: location@,
                user: user@,
            },
            Response::Error { status, error } => ResponseView::Error {
                status: *status,
                error: error@,
            },
            Response::Redirect { location } => ResponseView::Redirect { location: location@ },
        }
    }
}

/// The answer for an error of the store.
pub open spec fn refusal(status: Status, error: AuthError) -> ResponseView {
    ResponseView::Error { status, error: error.message() }
}

/// The address of a new user: the directory of the request with the id
/// added, and `user/` in place of `sign_up/`.
pub open spec fn user_location(directory: Seq<char>, id: int) -> Seq<char> {
    replaced(directory + decimal_text(id), "sign_up/"@, "user/"@)
}

/// What `sign_up` answers once the store has answered: the new user, enabled
/// where the store could enable it and as registered where it could not; or
/// `Conflict` with the store's error.
pub open spec fn signed_up(
    directory: Seq<char>,
    added: Result<User, AuthError>,
    enabled: Result<User, AuthError>,
) -> ResponseView {
    match added {
        Ok(user) => ResponseView::Created {
            location: user_location(directory, user.id as int),
            user: match enabled {
                Ok(active) => active@,
                Err(_) => user@,
            },
        },
        Err(error) => refusal(Status::Conflict, error),
    }
}

fn refuse(status: Status, error: AuthError) -> (response: Response)
    ensures
        response@ == refusal(status, error),
{
    Response::Error { status, error: error.to_string() }
}

/// Registers the user of a sign-up form and enables it.
///
/// A form whose two passwords differ is answered with `BadRequest`, and the
/// store is not asked. Otherwise the store is asked to add the user and, if
/// it did, to enable it.
pub fn sign_up<E: Entity + ?Sized>(
    entity: &AuthEntity<E>,
    form: &SignUp,
    uri: &RequestedUriString,
) -> (response: Response)
    ensures
        form.password@ != form.re_password@ ==> response@ == (ResponseView::Error {
            status: Status::BadRequest,
            error: Seq::empty(),
        }),
        form.password@ == form.re_password@ ==> exists|added: Result<User, AuthError>|
            {
                &&& #[trigger] entity.answers(
                    Call::AddUser {
                        name: form.username@,
                        email: form.email@,
                        password: form.password@,
                        attributes: form.attributes@,
                    },
                    Answer::User(added),
                )
                &&& if added is Ok {
                    exists|enabled: Result<User, AuthError>|
                        #[trigger] entity.answers(
                            Call::EnableUser { username: added->Ok_0.name@ },
                            Answer::User(enabled),
                        ) && response@ == signed_up(uri.directory(), added, enabled)
                } else {
                    response@ == signed_up(uri.directory(), added, added)
                }
            },
{
    if !form.passwords_match() {
        return Response::Error { status: Status::BadRequest, error: String::new() };
    }
    let added = entity.add_user(
        form.username.as_str(),
        form.email.as_str(),
        form.password.as_str(),
        form.attributes.clone(),
    );
    match added {
        Ok(user) => {
            let mut uri_str = uri.to_string();
            uri_str.append(decimal(user.id as i64).as_str());
            proof {
                reveal_strlit("sign_up/");
            }
            let location = replace_all(uri_str.as_str(), "sign_up/", "user/");
            let enabled = entity.enable_user(user.name.as_str());
            let response = match enabled {
                Ok(active) => Response::Created { location, user: active },
                Err(_) => Response::Created { location, user },
            };
            assert(entity.answers(
                Call::EnableUser { username: added->Ok_0.name@ },
                Answer::User(enabled),
            ) && response@ == signed_up(uri.directory(), added, enabled));
            response
        },
        Err(error) => {
            let response = refuse(Status::Conflict, error);
            assert(response@ == signed_up(uri.directory(), added, added));
            response
        },
    }
}

/// What `sign_in` answers once the store has bound `token`: the token, or
/// `Unauthorized` with the store's error.
pub open spec fn signed_in(token: Seq<char>, bound: Option<AuthError>) -> ResponseView {
    match bound {
        Some(error) => refusal(Status::Unauthorized, error),
        None => ResponseView::Token { token },
    }
}

/// Signs a user in: checks name and password with the store, issues a token
/// under the service's secret and binds it to the user.
///
/// Wrong credentials are answered with `Unauthorized` and the store's error,
/// and so is a store that cannot bind the token. A secret that no token can
/// be issued under is answered with `InternalServerError`.
pub fn sign_in<E: Entity + ?Sized>(
    private_key: &PrivateKey,
    entity: &AuthEntity<E>,
    form: &SignIn,
) -> (response: Response)
    ensures
        exists|known: Result<User, AuthError>|
            {
                &&& #[trigger] entity.answers(
                    Call::GetUserByNameAndPwd {
                        username: form.username@,
                        password: form.password@,
                    },
                    Answer::User(known),
                )
                &&& match known {
                    Err(error) => response@ == refusal(Status::Unauthorized, error),
                    Ok(_) => if usable_secret(private_key@) {
                        exists|token: Seq<char>, bound: Option<AuthError>|
                            {
                                &&& valid_api_key(token, private_key@)
                                &&& #[trigger] entity.answers(
                                    Call::AddToken { username: form.username@, token },
                                    Answer::Done(bound),
                                )
                                &&& response@ == signed_in(token, bound)
                            }
                    } else {
                        response@ == (ResponseView::Error {
                            status: Status::InternalServerError,
                            error: Seq::empty(),
                        })
                    },
                }
            },
{
    let known = entity.get_user_by_name_and_pwd(
        form.username.as_str(),
        form.password.as_str(),
    );
    if let Err(error) = known {
        let response = refuse(Status::Unauthorized, error);
        assert(entity.answers(
            Call::GetUserByNameAndPwd {
                username: form.username@,
                password: form.password@,
            },
            Answer::User(known),
        ));
        return response;
    }
    let token = match generate_api_key(private_key.as_str()) {
        Some(token) => token,
        None => {
            return Response::Error { status: Status::InternalServerError, error: String::new() };
        },
    };
    let bound = entity.add_token(form.username.as_str(), token.as_str());
    let ghost text = token@;
    let response = match bound {
        Some(error) => refuse(Status::Unauthorized, error),
        None => Response::Token { token },
    };
    assert(entity.answers(
        Call::AddToken { username: form.username@, token: text },
        Answer::Done(bound),
    ) && response@ == signed_in(text, bound));
    response
}

/// The address that a user is sent to who asks for another user's record:
/// the directory of the request, with the user's own id in place of the one
/// asked for.
pub open spec fn own_location(directory: Seq<char>, asked: int, own: int) -> Seq<char> {
    replaced(directory, decimal_text(asked), decimal_text(own))
}

/// Answers a request for the record of the user `id`, made by `user`.
///
/// A user gets its own record as the request guard found it. An admin gets
/// any record that the store has, and `NotFound` with the store's error for
/// one that it has not. Anyone else is sent to its own record.
pub fn get_user<E: Entity + ?Sized>(
    user: &AuthorizedUser,
    id: i32,
    entity: &AuthEntity<E>,
    uri: &RequestedUriString,
) -> (response: Response)
    ensures
        user.user().id == id ==> response@ == (ResponseView::User {
            status: Status::Success,
            user: user.user()@,
        }),
        user.user().id != id && user.user().role@ != RoleView::Admins ==> response@
            == (ResponseView::Redirect {
            location: own_location(uri.directory(), id as int, user.user().id as int),
        }),
        user.user().id != id && user.user().role@ == RoleView::Admins ==> exists|
            found: Result<User, AuthError>,
        |
            {
                &&& #[trigger] entity.answers(Call::GetUserById { user_id: id }, Answer::User(found))
                &&& response@ == match found {
                    Ok(other) => ResponseView::User { status: Status::Success, user: other@ },
                    Err(error) => refusal(Status::NotFound, error),
                }
            },
{
    let own = user.get_user();
    if own.id == id {
        Response::User { status: Status::Success, user: own.duplicate() }
    } else if own.role.same(&Role::Admins) {
        let found = entity.get_user_by_id(id);
        let response = match found {
            Ok(other) => Response::User { status: Status::Success, user: other },
            Err(error) => refuse(Status::NotFound, error),
        };
        assert(entity.answers(Call::GetUserById { user_id: id }, Answer::User(found))
            && response@ == match found {
            Ok(other) => ResponseView::User { status: Status::Success, user: other@ },
            Err(error) => refusal(Status::NotFound, error),
        });
        response
    } else {
        let asked = decimal(id as i64);
        let mine = decimal(own.id as i64);
        proof {
            crate::text::lemma_natural_text(
                if id < 0 {
                    (-id) as nat
                } else {
                    id as nat
                },
            );
        }
        let location = replace_all(uri.to_string().as_str(), asked.as_str(), mine.as_str());
        Response::Redirect { location }
    }
}

/// What a listing answers once the store has answered: the users, or
/// `InternalServerError` with the store's error.
pub open spec fn listed(found: Result<Vec<User>, AuthError>) -> ResponseView {
    match found {
        Ok(users) => ResponseView::Users { users: users_view(users@) },
        Err(error) => refusal(Status::InternalServerError, error),
    }
}

/// Lists the first users for an admin: the ranks 0 to 10.
pub fn get_user_list<E: Entity + ?Sized>(entity: &AuthEntity<E>, user: &AdminUser) -> (response:
    Response)
    ensures
        exists|found: Result<Vec<User>, AuthError>|
            #[trigger] entity.answers(
                Call::ListUsers { from: FIRST_RANK, count: LAST_RANK },
                Answer::Users(found),
            ) && response@ == listed(found),
{
    list(entity, FIRST_RANK, LAST_RANK)
}

/// Lists users for an admin, with the limit of the request as the first
/// rank and its offset as the last.
pub fn get_user_list_with_limit<E: Entity + ?Sized>(
    entity: &AuthEntity<E>,
    limit: &LimitOffset,
    user: &AdminUser,
) -> (response: Response)
    ensures
        exists|found: Result<Vec<User>, AuthError>|
            #[trigger] entity.answers(
                Call::ListUsers { from: limit.limit(), count: limit.offset() },
                Answer::Users(found),
            ) && response@ == listed(found),
{
    list(entity, limit.get_limit(), limit.get_offset())
}

fn list<E: Entity + ?Sized>(entity: &AuthEntity<E>, from: isize, count: isize) -> (response:
    Response)
    ensures
        exists|found: Result<Vec<User>, AuthError>|
            #[trigger] entity.answers(Call::ListUsers { from, count }, Answer::Users(found))
                && response@ == listed(found),
{
    let found = entity.list_users(from, count);
    let response = match found {
        Ok(users) => Response::Users { users },
        Err(error) => refuse(Status::InternalServerError, error),
    };
    assert(entity.answers(Call::ListUsers { from, count }, Answer::Users(found)) && response@
        == listed(found));
    response
}

} // verus!

//! The user behind a request, found by the access token that the request
//! carries.

use vstd::prelude::*;

use crate::account::{Role, RoleView, User};
use crate::decorator::AuthEntity;
use crate::entity::{Answer, Call, Entity};
use crate::error::AuthError;
use crate::net::key::{valid_api_key, validate_api_key, PrivateKey};

verus! {

/// Why a request is turned away, as the status to answer it with.
#[derive(Debug, Clone, Copy, PartialEq, Eq, Structural)]
pub enum Denial {
    /// The request carries no token, an invalid one, or one of a user who
    /// may not pass.
    Unauthorized,
    /// The service has no secret to check tokens with.
    InternalServerError,
}

/// A signed-in user, whatever its role.
pub struct AuthorizedUser(User);

/// A signed-in user with the role `Admins`.
pub struct AdminUser(User);

/// The views of a list of roles.
pub open spec fn roles_view(roles: Seq<Role>) -> Seq<RoleView> {
    roles.map_values(|role: Role| role@)
}

/// Whether a user of role `role` may pass where `allowed` lists the roles
/// that may: everyone where the list is empty.
pub open spec fn permitted(allowed: Seq<RoleView>, role: RoleView) -> bool {
    allowed.len() == 0 || allowed.contains(role)
}

/// The token of a request that carries exactly one, valid under the
/// service's secret. Without a secret the service cannot answer; any other
/// defect makes the request unauthorized.
pub open spec fn presented_token(
    access_tokens: Seq<Seq<char>>,
    secret: Option<Seq<char>>,
) -> Result<Seq<char>, Denial> {
    if access_tokens.len() != 1 {
        Err(Denial::Unauthorized)
    } else {
        match secret {
            None => Err(Denial::InternalServerError),
            Some(secret) => if valid_api_key(access_tokens[0], secret) {
                Ok(access_tokens[0])
            } else {
                Err(Denial::Unauthorized)
            },
        }
    }
}

/// What becomes of a request once the store has answered for its token: the
/// user passes if the store knows it and its role is permitted.
pub open spec fn passes(answer: Result<User, AuthError>, allowed: Seq<RoleView>) -> Result<
    User,
    Denial,
> {
    match answer {
        Ok(user) => if permitted(allowed, user.role@) {
            Ok(user)
        } else {
            Err(Denial::Unauthorized)
        },
        Err(_) => Err(Denial::Unauthorized),
    }
}

/// Whether `role` is among `allowed`.
pub fn has_role(allowed: &Vec<Role>, role: &Role) -> (found: bool)
    ensures
        found == roles_view(allowed@).contains(role@),
{
    let mut i: usize = 0;
    while i < allowed.len()
        invariant
            i <= allowed.len(),
            forall|j: int| 0 <= j < i ==> roles_view(allowed@)[j] != role@,
        decreases allowed.len() - i,
    {
        if allowed[i].same(role) {
            assert(roles_view(allowed@)[i as int] == role@);
            return true;
        }
        i += 1;
    }
    false
}

/// Checks the access tokens of a request against the service's secret.
pub fn check_access_token<'a>(access_tokens: &'a Vec<String>, key: Option<&PrivateKey>) -> (token:
    Result<&'a String, Denial>)
    ensures
        match token {
            Ok(t) => presented_token(access_tokens.deep_view(), secret_view(key)) == Ok::<
                Seq<char>,
                Denial,
            >(t@),
            Err(denial) => presented_token(access_tokens.deep_view(), secret_view(key)) == Err::<
                Seq<char>,
                Denial,
            >(denial),
        },
{
    if access_tokens.len() != 1 {
        return Err(Denial::Unauthorized);
    }
    let header_key = &access_tokens[0];
    assert(access_tokens.deep_view()[0] == header_key@);
    let key = match key {
        Some(key) => key,
        None => {
            return Err(Denial::InternalServerError);
        },
    };
    if validate_api_key(header_key.as_str(), key.as_str()) {
        Ok(header_key)
    } else {
        Err(Denial::Unauthorized)
    }
}

/// The secret, if the service has one.
pub open spec fn secret_view(key: Option<&PrivateKey>) -> Option<Seq<char>> {
    match key {
        Some(key) => Some(key@),
        None => None,
    }
}

/// Decides on a request from the store's answer for its token.
pub fn decide(answer: Result<User, AuthError>, role: &Vec<Role>) -> (result: Result<User, Denial>)
    ensures
        result == passes(answer, roles_view(role@)),
{
    match answer {
        Ok(user) => {
            if role.len() == 0 || has_role(role, &user.role) {
                Ok(user)
            } else {
                Err(Denial::Unauthorized)
            }
        },
        Err(_) => Err(Denial::Unauthorized),
    }
}

/// Finds the user behind a request. `access_tokens` are the values of the
/// request's `access_token` headers, `key` and `entity` what the service
/// holds, and `role` the roles that may pass (all, where it is empty).
///
/// The request must carry exactly one token, valid under the secret; the
/// store must know the token's user; and the user must have a permitted role.
pub fn user_from_request<E: Entity + ?Sized>(
    access_tokens: &Vec<String>,
    key: Option<&PrivateKey>,
    entity: Option<&AuthEntity<E>>,
    role: Vec<Role>,
) -> (result: Result<User, Denial>)
    ensures
        presented_token(access_tokens.deep_view(), secret_view(key)) matches Err(denial)
            ==> result == Err::<User, Denial>(denial),
        presented_token(access_tokens.deep_view(), secret_view(key)) is Ok && entity is None
            ==> result == Err::<User, Denial>(Denial::Unauthorized),
        presented_token(access_tokens.deep_view(), secret_view(key)) matches Ok(token)
            ==> entity matches Some(entity) ==> exists|answer: Result<User, AuthError>|
            #[trigger] entity.answers(Call::GetUserByToken { token }, Answer::User(answer))
                && result == passes(answer, roles_view(role@)),
{
    let header_key = match check_access_token(access_tokens, key) {
        Ok(token) => token,
        Err(denial) => {
            return Err(denial);
        },
    };
    match entity {
        Some(entity) => {
            let answer = entity.get_user_by_token(header_key.as_str());
            let result = decide(answer, &role);
            proof {
                let token = presented_token(access_tokens.deep_view(), secret_view(key))->Ok_0;
                assert(entity.answers(Call::GetUserByToken { token }, Answer::User(answer)));
            }
            result
        },
        None => Err(Denial::Unauthorized),
    }
}

impl AuthorizedUser {
    /// The user.
    pub closed spec fn user(&self) -> User {
        self.0
    }

    /// The user.
    pub fn get_user(&self) -> (user: &User)
        ensures
            *user == self.user(),
    {
        &self.0
    }

    /// The user behind a request, whatever its role.
    pub fn from_request<E: Entity + ?Sized>(
        access_tokens: &Vec<String>,
        key: Option<&PrivateKey>,
        entity: Option<&AuthEntity<E>>,
    ) -> (result: Result<AuthorizedUser, Denial>)
        ensures
            match presented_token(access_tokens.deep_view(), secret_view(key)) {
                Err(denial) => result matches Err(d) && d == denial,
                Ok(token) => match entity {
                    None => result matches Err(d) && d == Denial::Unauthorized,
                    Some(entity) => exists|answer: Result<User, AuthError>|
                        #[trigger] entity.answers(
                            Call::GetUserByToken { token },
                            Answer::User(answer),
                        ) && match answer {
                            Ok(user) => result matches Ok(authorized) && authorized.user() == user,
                            Err(_) => result matches Err(d) && d == Denial::Unauthorized,
                        },
                },
            },
    {
        let role: Vec<Role> = Vec::new();
        assert(roles_view(role@).len() == 0);
        match user_from_request(access_tokens, key, entity, role) {
            Ok(user) => Ok(AuthorizedUser(user)),
            Err(denial) => Err(denial),
        }
    }
}

impl AdminUser {
    /// The user.
    pub closed spec fn user(&self) -> User {
        self.0
    }

    /// The user.
    pub fn get_user(&self) -> (user: &User)
        ensures
            *user == self.user(),
    {
        &self.0
    }

    /// The user behind a request, who must have the role `Admins`.
    pub fn from_request<E: Entity + ?Sized>(
        access_tokens: &Vec<String>,
        key: Option<&PrivateKey>,
        entity: Option<&AuthEntity<E>>,
    ) -> (result: Result<AdminUser, Denial>)
        ensures
            match presented_token(access_tokens.deep_view(), secret_view(key)) {
                Err(denial) => result matches Err(d) && d == denial,
                Ok(token) => match entity {
                    None => result matches Err(d) && d == Denial::Unauthorized,
                    Some(entity) => exists|answer: Result<User, AuthError>|
                        #[trigger] entity.answers(
                            Call::GetUserByToken { token },
                            Answer::User(answer),
                        ) && match answer {
                            Ok(user) => if user.role@ == RoleView::Admins {
                                result matches Ok(admin) && admin.user() == user
                            } else {
                                result matches Err(d) && d == Denial::Unauthorized
                            },
                            Err(_) => result matches Err(d) && d == Denial::Unauthorized,
                        },
                },
            },
    {
        let mut role: Vec<Role> = Vec::new();
        role.push(Role::Admins);
        assert(roles_view(role@) =~= seq![RoleView::Admins]);
        assert(forall|r: RoleView| seq![RoleView::Admins].contains(r) <==> r == RoleView::Admins) by {
            assert(seq![RoleView::Admins][0] == RoleView::Admins);
        }
        match user_from_request(access_tokens, key, entity, role) {
            Ok(user) => Ok(AdminUser(user)),
            Err(denial) => Err(denial),
        }
    }
}

} // verus!

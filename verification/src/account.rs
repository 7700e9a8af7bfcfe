//! Users, their roles and their lifecycle status.

use std::collections::HashMap;
use vstd::prelude::*;
use vstd::string::*;

use crate::text::same_text;

verus! {

/// Lifecycle status of a user account.
#[derive(Debug, Clone, Copy, PartialEq, Eq, Structural)]
pub enum UserStatus {
    /// Registered, not yet enabled.
    Created,
    /// Enabled: tokens of this user are honoured.
    Active,
    /// Revoked.
    Disabled,
    /// The stored status was not recognised.
    Unknown,
}

impl UserStatus {
    /// The status that a stored status code stands for.
    pub open spec fn of_code(code: int) -> UserStatus {
        if code == 0 {
            UserStatus::Created
        } else if code == 1 {
            UserStatus::Active
        } else if code == 2 {
            UserStatus::Disabled
        } else {
            UserStatus::Unknown
        }
    }

    /// The lower-case name of the status.
    pub open spec fn text(self) -> Seq<char> {
        match self {
            UserStatus::Created => "created"@,
            UserStatus::Active => "active"@,
            UserStatus::Unknown => "unknown"@,
            UserStatus::Disabled => "disabled"@,
        }
    }

    /// Decodes a stored status code.
    pub fn from_code(code: u8) -> (status: UserStatus)
        ensures
            status == UserStatus::of_code(code as int),
    {
        if code == 0 {
            UserStatus::Created
        } else if code == 1 {
            UserStatus::Active
        } else if code == 2 {
            UserStatus::Disabled
        } else {
            UserStatus::Unknown
        }
    }

    /// The lower-case name of the status, as shown to callers.
    pub fn to_string(&self) -> (text: String)
        ensures
            text@ == self.text(),
    {
        String::from_str(
            match self {
                UserStatus::Created => "created",
                UserStatus::Active => "active",
                UserStatus::Unknown => "unknown",
                UserStatus::Disabled => "disabled",
            },
        )
    }
}

/// What a user may do: one of two fixed roles, or a role named by the deployment.
#[derive(Debug, Clone, PartialEq)]
pub enum Role {
    Users,
    Admins,
    Custom(String),
}

/// A role with its custom name as a sequence of characters.
pub enum RoleView {
    Users,
    Admins,
    Custom(Seq<char>),
}

impl RoleView {
    /// The text under which the role is stored and shown.
    pub open spec fn text(self) -> Seq<char> {
        match self {
            RoleView::Users => "users"@,
            RoleView::Admins => "admins"@,
            RoleView::Custom(name) => name,
        }
    }

    /// The role that a stored text stands for: the two fixed names give the
    /// fixed roles, every other text a custom role of that name.
    pub open spec fn of_text(text: Seq<char>) -> RoleView {
        if text == "users"@ {
            RoleView::Users
        } else if text == "admins"@ {
            RoleView::Admins
        } else {
            RoleView::Custom(text)
        }
    }
}

impl View for Role {
    type V = RoleView;

    open spec fn view(&self) -> RoleView {
        match self {
            Role::Users => RoleView::Users,
            Role::Admins => RoleView::Admins,
            Role::Custom(name) => RoleView::Custom(name@),
        }
    }
}

impl Role {
    /// Reads a role from its text. Every text is a role, so this never fails.
    pub fn from_str(s: &str) -> (role: Result<Role, ()>)
        ensures
            role matches Ok(r) && r@ == RoleView::of_text(s@),
    {
        if same_text(s, "users") {
            Ok(Role::Users)
        } else if same_text(s, "admins") {
            Ok(Role::Admins)
        } else {
            Ok(Role::Custom(String::from_str(s)))
        }
    }

    /// The text under which the role is stored and shown.
    pub fn to_string(&self) -> (text: String)
        ensures
            text@ == self@.text(),
    {
        match self {
            Role::Users => String::from_str("users"),
            Role::Admins => String::from_str("admins"),
            Role::Custom(name) => name.clone(),
        }
    }

    /// A copy of the role.
    pub fn duplicate(&self) -> (copy: Role)
        ensures
            copy@ == self@,
    {
        match self {
            Role::Users => Role::Users,
            Role::Admins => Role::Admins,
            Role::Custom(name) => Role::Custom(name.clone()),
        }
    }

    /// Whether two roles are the same role.
    pub fn same(&self, other: &Role) -> (same: bool)
        ensures
            same == (self@ == other@),
    {
        match (self, other) {
            (Role::Users, Role::Users) => true,
            (Role::Admins, Role::Admins) => true,
            (Role::Custom(a), Role::Custom(b)) => same_text(a.as_str(), b.as_str()),
            _ => false,
        }
    }
}

/// A user record with its password hash: what the store reads and checks
/// credentials against.
#[derive(Debug, Clone, PartialEq)]
pub struct PrivateUser {
    pub id: i32,
    pub name: String,
    pub email: String,
    pub(crate) password: String,
    pub status: UserStatus,
    pub role: Role,
    pub attributes: HashMap<String, String>,
}

/// A user record as handed to callers: no password hash.
#[derive(Debug, Clone, PartialEq)]
pub struct User {
    pub id: i32,
    pub name: String,
    pub email: String,
    pub status: UserStatus,
    pub role: Role,
    pub attributes: HashMap<String, String>,
}

/// The mathematical content of a [`PrivateUser`].
pub struct PrivateUserView {
    pub id: int,
    pub name: Seq<char>,
    pub email: Seq<char>,
    pub password: Seq<char>,
    pub status: UserStatus,
    pub role: RoleView,
    pub attributes: Map<String, String>,
}

/// The mathematical content of a [`User`].
pub struct UserView {
    pub id: int,
    pub name: Seq<char>,
    pub email: Seq<char>,
    pub status: UserStatus,
    pub role: RoleView,
    pub attributes: Map<String, String>,
}

impl PrivateUserView {
    /// The public projection: every field but the password hash.
    pub open spec fn public(self) -> UserView {
        UserView {
            id: self.id,
            name: self.name,
            email: self.email,
            status: self.status,
            role: self.role,
            attributes: self.attributes,
        }
    }
}

impl View for PrivateUser {
    type V = PrivateUserView;

    open(crate) spec fn view(&self) -> PrivateUserView {
        PrivateUserView {
            id: self.id as int,
            name: self.name@,
            email: self.email@,
            password: self.password@,
            status: self.status,
            role: self.role@,
            attributes: self.attributes@,
        }
    }
}

impl View for User {
    type V = UserView;

    open spec fn view(&self) -> UserView {
        UserView {
            id: self.id as int,
            name: self.name@,
            email: self.email@,
            status: self.status,
            role: self.role@,
            attributes: self.attributes@,
        }
    }
}

impl PrivateUser {
    /// Puts a record together from its parts; `password` is the stored hash.
    pub fn new(
        id: i32,
        name: String,
        email: String,
        password: String,
        status: UserStatus,
        role: Role,
        attributes: HashMap<String, String>,
    ) -> (user: PrivateUser)
        ensures
            user@ == (PrivateUserView {
                id: id as int,
                name: name@,
                email: email@,
                password: password@,
                status: status,
                role: role@,
                attributes: attributes@,
            }),
    {
        PrivateUser { id, name, email, password, status, role, attributes }
    }

    /// Whether `digest` is the stored password hash.
    pub fn has_password(&self, digest: &str) -> (same: bool)
        ensures
            same == (self@.password == digest@),
    {
        same_text(self.password.as_str(), digest)
    }
}

impl User {
    /// A copy of the user.
    pub fn duplicate(&self) -> (copy: User)
        ensures
            copy@ == self@,
    {
        User {
            id: self.id,
            name: self.name.clone(),
            email: self.email.clone(),
            status: self.status,
            role: self.role.duplicate(),
            attributes: self.attributes.clone(),
        }
    }
}

impl From<PrivateUser> for User {
    fn from(user: PrivateUser) -> (public: User) {
        User {
            id: user.id,
            name: user.name,
            email: user.email,
            status: user.status,
            role: user.role,
            attributes: user.attributes,
        }
    }
}

impl vstd::std_specs::convert::FromSpecImpl<PrivateUser> for User {
    open spec fn obeys_from_spec() -> bool {
        true
    }

    open(crate) spec fn from_spec(user: PrivateUser) -> User {
        User {
            id: user.id,
            name: user.name,
            email: user.email,
            status: user.status,
            role: user.role,
            attributes: user.attributes,
        }
    }
}

/// The public projection of a private record keeps every field but the
/// password hash.
pub fn public_user(user: PrivateUser) -> (public: User)
    ensures
        public@ == user@.public(),
{
    User::from(user)
}

} // verus!

//! The user store on a key-value backend.
//!
//! [`RedisEntity`] knows the key schema and the steps of every operation. It
//! opens an [`Exchange`] for each call, and whoever holds the connection pool
//! carries the exchange out: acquire a connection, run each command that the
//! exchange asks for, hand back what came of it, and release the connection
//! when the exchange ends.

pub mod command;
pub mod consistency;
pub mod driver;
pub mod exchange;
pub mod ids;
pub mod laws;
pub mod listing;
pub mod model;
pub mod record;
pub mod schema;
pub mod stored;

use std::collections::HashMap;
use vstd::prelude::*;
use vstd::string::*;

use crate::account::Role;
use crate::redisdb::exchange::{Exchange, ExchangeView, Kind};

verus! {

/// The user store: the operations of the storage contract, each as an
/// exchange with a key-value backend whose keys all start with one prefix.
pub struct RedisEntity {
    prefix: String,
}

impl RedisEntity {
    /// The prefix of every key of this store.
    pub closed spec fn prefix(&self) -> Seq<char> {
        self.prefix@
    }

    /// A store whose keys all start with `prefix`.
    pub fn new(prefix: String) -> (entity: RedisEntity)
        ensures
            entity.prefix() == prefix@,
    {
        RedisEntity { prefix }
    }

    /// Registers a user. Ends with the new user, `DuplicateUsername` where
    /// the name is taken, or `IOError`.
    pub fn add_user(
        &self,
        name: &str,
        email: &str,
        password: &str,
        attributes: HashMap<String, String>,
    ) -> (exchange: Exchange)
        ensures
            exchange@ == ExchangeView::add_user(self.prefix(), name@, email@, password@, attributes@),
    {
        Exchange {
            name: String::from_str(name),
            email: String::from_str(email),
            password: String::from_str(password),
            attributes,
            ..Exchange::blank(self.prefix.as_str(), Kind::AddUser)
        }
    }

    /// Looks a user up by id.
    pub fn get_user_by_id(&self, user_id: i32) -> (exchange: Exchange)
        ensures
            exchange@ == ExchangeView::get_user_by_id(self.prefix(), user_id),
    {
        Exchange { id: user_id, ..Exchange::blank(self.prefix.as_str(), Kind::GetUserById) }
    }

    /// Looks a user up by name; the outcome holds the password hash.
    pub fn get_user_by_name(&self, username: &str) -> (exchange: Exchange)
        ensures
            exchange@ == ExchangeView::get_user_by_name(self.prefix(), username@),
    {
        Exchange {
            name: String::from_str(username),
            ..Exchange::blank(self.prefix.as_str(), Kind::GetUserByName)
        }
    }

    /// Looks a user up by name and checks the password. An unknown name and
    /// a wrong password both end with `NotFound`.
    pub fn get_user_by_name_and_pwd(&self, username: &str, password: &str) -> (exchange: Exchange)
        ensures
            exchange@ == ExchangeView::get_user_by_name_and_pwd(self.prefix(), username@, password@),
    {
        Exchange {
            name: String::from_str(username),
            password: String::from_str(password),
            ..Exchange::blank(self.prefix.as_str(), Kind::GetUserByNameAndPwd)
        }
    }

    /// Deletes a user: its record, its name under its id, and its id in the
    /// ordered set. A removal that fails does not stop the others.
    pub fn delete_user(&self, user_id: i32) -> (exchange: Exchange)
        ensures
            exchange@ == ExchangeView::delete_user(self.prefix(), user_id),
    {
        Exchange { id: user_id, ..Exchange::blank(self.prefix.as_str(), Kind::DeleteUser) }
    }

    /// Lists the users whose ranks in the order of creation lie from `from`
    /// to `count`.
    pub fn list_users(&self, from: isize, count: isize) -> (exchange: Exchange)
        ensures
            exchange@ == ExchangeView::list_users(self.prefix(), from, count),
    {
        Exchange { from, count, ..Exchange::blank(self.prefix.as_str(), Kind::ListUsers) }
    }

    /// Makes a user `Active`.
    pub fn enable_user(&self, username: &str) -> (exchange: Exchange)
        ensures
            exchange@ == ExchangeView::enable_user(self.prefix(), username@),
    {
        Exchange {
            name: String::from_str(username),
            ..Exchange::blank(self.prefix.as_str(), Kind::EnableUser)
        }
    }

    /// Makes a user `Disabled`.
    pub fn disable_user(&self, username: &str) -> (exchange: Exchange)
        ensures
            exchange@ == ExchangeView::disable_user(self.prefix(), username@),
    {
        Exchange {
            name: String::from_str(username),
            ..Exchange::blank(self.prefix.as_str(), Kind::DisableUser)
        }
    }

    /// Reads the token bound to a user.
    pub fn get_token(&self, username: &str) -> (exchange: Exchange)
        ensures
            exchange@ == ExchangeView::get_token(self.prefix(), username@),
    {
        Exchange {
            name: String::from_str(username),
            ..Exchange::blank(self.prefix.as_str(), Kind::GetToken)
        }
    }

    /// Binds a token to a user, in both directions, for an hour.
    pub fn add_token(&self, username: &str, token: &str) -> (exchange: Exchange)
        ensures
            exchange@ == ExchangeView::add_token(self.prefix(), username@, token@),
    {
        Exchange {
            name: String::from_str(username),
            token: String::from_str(token),
            ..Exchange::blank(self.prefix.as_str(), Kind::AddToken)
        }
    }

    /// Resolves a token to its user, who must be `Active`, and renews the
    /// binding.
    pub fn get_user_by_token(&self, token: &str) -> (exchange: Exchange)
        ensures
            exchange@ == ExchangeView::get_user_by_token(self.prefix(), token@),
    {
        Exchange {
            token: String::from_str(token),
            ..Exchange::blank(self.prefix.as_str(), Kind::GetUserByToken)
        }
    }

    /// Resolves a token to its user as `get_user_by_token` does, then
    /// removes the binding in both directions.
    pub fn delete_token(&self, token: &str) -> (exchange: Exchange)
        ensures
            exchange@ == ExchangeView::delete_token(self.prefix(), token@),
    {
        Exchange {
            token: String::from_str(token),
            ..Exchange::blank(self.prefix.as_str(), Kind::DeleteToken)
        }
    }

    /// Gives a user a role in place of the one it has.
    pub fn add_user_role(&self, username: &str, role: Role) -> (exchange: Exchange)
        ensures
            exchange@ == ExchangeView::add_user_role(self.prefix(), username@, role@),
    {
        Exchange {
            name: String::from_str(username),
            role,
            ..Exchange::blank(self.prefix.as_str(), Kind::AddUserRole)
        }
    }
}

} // verus!

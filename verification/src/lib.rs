//! User identity and token authentication: the user model, the storage
//! contract, a key-value store protocol and the API-key codec.

pub mod account;
pub mod api;
mod decorator;
pub mod digest;
pub mod entity;
pub mod error;
pub mod limitation;
pub mod net;
pub mod redisdb;
pub mod text;

pub use account::{PrivateUser, PrivateUserView, Role, RoleView, User, UserStatus, UserView};
pub use decorator::AuthEntity;
pub use entity::Entity;
pub use error::AuthError;
pub use limitation::user::{user_from_request, AdminUser, AuthorizedUser};
pub use net::key::{generate_api_key, PrivateKey};

//! Who may pass: the users that a request is made for.

pub mod user;

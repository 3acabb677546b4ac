//! The rows of the store, one module for each table.

pub mod avatar;
pub mod favorite;
pub mod home;
pub mod login;
pub mod prelude;
pub mod session;
pub mod userinfo;
pub mod watching;

//! The upstream credentials of a session.

use crate::rows::Row;
use vstd::prelude::*;

verus! {

/// The row's `id` is the id of the session that owns the credentials.
#[derive(Clone, Debug, PartialEq, Eq)]
pub struct Model {
    pub id: i64,
    /// The address that upstream requests go to.
    pub server: String,
    pub username: String,
    pub password: String,
}

impl Row for Model {
    fn duplicate(&self) -> (r: Self) {
        Model {
            id: self.id,
            server: self.server.clone(),
            username: self.username.clone(),
            password: self.password.clone(),
        }
    }
}

} // verus!

//! A session: one login of one upstream account.

use crate::rows::Row;
use vstd::prelude::*;

verus! {

#[derive(Clone, Debug, PartialEq, Eq)]
pub struct Model {
    pub id: i64,
    /// The bearer token that names the session.
    pub auth_key: String,
}

impl Row for Model {
    fn duplicate(&self) -> (r: Self) {
        Model { id: self.id, auth_key: self.auth_key.clone() }
    }
}

} // verus!

//! What the upstream last said about a session's account.

use crate::rows::Row;
use vstd::prelude::*;

verus! {

/// The row's `id` is the id of the session that the account belongs to.
#[derive(Clone, Debug, PartialEq, Eq)]
pub struct Model {
    pub id: i64,
    /// Positive when the upstream accepts the credentials.
    pub auth: i64,
    pub status: String,
    pub is_trial: i64,
    pub exp_date: i64,
    pub created_at: i64,
    pub active_cons: i64,
    pub max_connections: i64,
}

impl Row for Model {
    fn duplicate(&self) -> (r: Self) {
        Model {
            id: self.id,
            auth: self.auth,
            status: self.status.clone(),
            is_trial: self.is_trial,
            exp_date: self.exp_date,
            created_at: self.created_at,
            active_cons: self.active_cons,
            max_connections: self.max_connections,
        }
    }
}

} // verus!

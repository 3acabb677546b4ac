//! A profile: a named space for favorites and playback positions inside a session.

use crate::rows::Row;
use vstd::prelude::*;

verus! {

#[derive(Clone, Debug, PartialEq, Eq)]
pub struct Model {
    pub id: i64,
    /// The session that owns the profile.
    pub session_id: i64,
    pub name: String,
}

impl Row for Model {
    fn duplicate(&self) -> (r: Self) {
        Model { id: self.id, session_id: self.session_id, name: self.name.clone() }
    }
}

} // verus!

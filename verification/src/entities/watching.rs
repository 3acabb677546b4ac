//! How far a profile has played a movie or a series.

use crate::json::same_text;
use crate::rows::Row;
use vstd::prelude::*;

verus! {

#[derive(Clone, Debug, PartialEq, Eq)]
pub struct Model {
    pub id: i64,
    /// The profile that owns the position.
    pub avatar_id: i64,
    pub kind: Kind,
    /// The catalog's identifier of the movie or series.
    pub value_id: i64,
    pub name: String,
    pub icon: String,
    /// The position, in the player's unit of elapsed time.
    pub time: i64,
    /// The instant, in seconds, at which the position was last written.
    pub date: i64,
    /// For a series, the episode that the position is in.
    pub episode_id: Option<i64>,
    /// The file extension of the movie or episode, where the upstream gave one.
    pub container_extension: Option<String>,
}

#[derive(Clone, Copy, Debug, PartialEq, Eq, Structural)]
pub enum Kind {
    Movie,
    Serie,
}

impl Default for Kind {
    fn default() -> (r: Self)
        ensures
            r == Kind::Movie,
    {
        Kind::Movie
    }
}

impl Kind {
    /// The name under which the kind is stored.
    pub open spec fn spec_stored_name(&self) -> Seq<char> {
        match self {
            Kind::Movie => "Movie"@,
            Kind::Serie => "Serie"@,
        }
    }

    /// The name under which the kind is stored.
    pub fn stored_name(&self) -> (r: &'static str)
        ensures
            r@ == self.spec_stored_name(),
    {
        match self {
            Kind::Movie => "Movie",
            Kind::Serie => "Serie",
        }
    }

    /// The kind that is stored under a name.
    pub open spec fn spec_stored_as(name: Seq<char>) -> Option<Kind> {
        if name == "Movie"@ {
            Some(Kind::Movie)
        } else if name == "Serie"@ {
            Some(Kind::Serie)
        } else {
            None
        }
    }

    /// The kind that is stored under a name.
    pub fn stored_as(name: &str) -> (r: Option<Kind>)
        ensures
            r == Kind::spec_stored_as(name@),
    {
        if same_text(name, "Movie") {
            Some(Kind::Movie)
        } else if same_text(name, "Serie") {
            Some(Kind::Serie)
        } else {
            None
        }
    }

    /// The name by which a request speaks of the kind.
    pub open spec fn spec_name(&self) -> Seq<char> {
        match self {
            Kind::Movie => "movie"@,
            Kind::Serie => "serie"@,
        }
    }

    /// The name by which a request speaks of the kind.
    pub fn name(&self) -> (r: &'static str)
        ensures
            r@ == self.spec_name(),
    {
        match self {
            Kind::Movie => "movie",
            Kind::Serie => "serie",
        }
    }

    /// The kind that a request speaks of by a name.
    pub open spec fn spec_named(name: Seq<char>) -> Option<Kind> {
        if name == "movie"@ {
            Some(Kind::Movie)
        } else if name == "serie"@ {
            Some(Kind::Serie)
        } else {
            None
        }
    }

    /// The kind that a request speaks of by a name.
    pub fn named(name: &str) -> (r: Option<Kind>)
        ensures
            r == Kind::spec_named(name@),
    {
        if same_text(name, "movie") {
            Some(Kind::Movie)
        } else if same_text(name, "serie") {
            Some(Kind::Serie)
        } else {
            None
        }
    }
}

impl Row for Model {
    fn duplicate(&self) -> (r: Self) {
        Model {
            id: self.id,
            avatar_id: self.avatar_id,
            kind: self.kind,
            value_id: self.value_id,
            name: self.name.clone(),
            icon: self.icon.clone(),
            time: self.time,
            date: self.date,
            episode_id: self.episode_id,
            container_extension: match &self.container_extension {
                Some(text) => Some(text.clone()),
                None => None,
            },
        }
    }
}

} // verus!

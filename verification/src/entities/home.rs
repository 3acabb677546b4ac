//! One entry of a session's home feed.

use crate::json::same_text;
use crate::rows::Row;
use vstd::prelude::*;

verus! {

#[derive(Clone, Debug, PartialEq, Eq)]
pub struct Model {
    pub id: i64,
    /// The session that the feed belongs to.
    pub session_id: i64,
    pub kind: Kind,
    /// The catalog's identifier of the item.
    pub value_id: i64,
    pub name: String,
    pub icon: String,
}

/// The list of the feed that an entry stands in.
#[derive(Clone, Copy, Debug, PartialEq, Eq, Structural)]
pub enum Kind {
    /// A movie among the best rated recent items.
    TopMovie,
    /// A series among the best rated recent items.
    TopSerie,
    /// One of the movies added last.
    Movie,
    /// One of the series added last.
    Serie,
}

impl Default for Kind {
    fn default() -> (r: Self)
        ensures
            r == Kind::TopMovie,
    {
        Kind::TopMovie
    }
}

impl Kind {
    /// The name under which the kind is stored.
    pub open spec fn spec_stored_name(&self) -> Seq<char> {
        match self {
            Kind::TopMovie => "TopMovie"@,
            Kind::TopSerie => "TopSerie"@,
            Kind::Movie => "Movie"@,
            Kind::Serie => "Serie"@,
        }
    }

    /// The name under which the kind is stored.
    pub fn stored_name(&self) -> (r: &'static str)
        ensures
            r@ == self.spec_stored_name(),
    {
        match self {
            Kind::TopMovie => "TopMovie",
            Kind::TopSerie => "TopSerie",
            Kind::Movie => "Movie",
            Kind::Serie => "Serie",
        }
    }

    /// The kind that is stored under a name.
    pub open spec fn spec_stored_as(name: Seq<char>) -> Option<Kind> {
        if name == "TopMovie"@ {
            Some(Kind::TopMovie)
        } else if name == "TopSerie"@ {
            Some(Kind::TopSerie)
        } else if name == "Movie"@ {
            Some(Kind::Movie)
        } else if name == "Serie"@ {
            Some(Kind::Serie)
        } else {
            None
        }
    }

    /// The kind that is stored under a name.
    pub fn stored_as(name: &str) -> (r: Option<Kind>)
        ensures
            r == Kind::spec_stored_as(name@),
    {
        if same_text(name, "TopMovie") {
            Some(Kind::TopMovie)
        } else if same_text(name, "TopSerie") {
            Some(Kind::TopSerie)
        } else if same_text(name, "Movie") {
            Some(Kind::Movie)
        } else if same_text(name, "Serie") {
            Some(Kind::Serie)
        } else {
            None
        }
    }

    pub open spec fn spec_is_normal(&self) -> bool {
        *self == Kind::Movie || *self == Kind::Serie
    }

    /// Whether the entry stands in one of the two lists by date, not in the top list.
    #[verifier::when_used_as_spec(spec_is_normal)]
    pub fn is_normal(&self) -> (r: bool)
        ensures
            r == self.spec_is_normal(),
    {
        match self {
            Kind::TopMovie => false,
            Kind::TopSerie => false,
            Kind::Movie => true,
            Kind::Serie => true,
        }
    }
}

impl Row for Model {
    fn duplicate(&self) -> (r: Self) {
        Model {
            id: self.id,
            session_id: self.session_id,
            kind: self.kind,
            value_id: self.value_id,
            name: self.name.clone(),
            icon: self.icon.clone(),
        }
    }
}

} // verus!

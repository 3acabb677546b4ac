//! The address under which a player fetches a stream from the upstream.

use crate::address::{get_origin, origin};
use crate::api_error::{ApiError, ApiResult};
use crate::database::{Database, Tables};
use crate::entities::prelude::Login;
use crate::json::same_text;
use crate::login::{get_login, get_session};
use vstd::prelude::*;
use vstd::string::StringExecFns;

verus! {

/// The three kinds of content that can be played.
#[derive(Clone, Copy, Debug, PartialEq, Eq, Structural)]
pub enum Kind {
    Live,
    Movie,
    Serie,
}

impl Kind {
    /// The name by which a request speaks of the kind.
    pub open spec fn spec_name(&self) -> Seq<char> {
        match self {
            Kind::Live => "live"@,
            Kind::Movie => "movie"@,
            Kind::Serie => "serie"@,
        }
    }

    /// The name by which a request speaks of the kind.
    pub fn name(&self) -> (r: &'static str)
        ensures
            r@ == self.spec_name(),
    {
        match self {
            Kind::Live => "live",
            Kind::Movie => "movie",
            Kind::Serie => "serie",
        }
    }

    /// The kind that a request speaks of by a name.
    pub open spec fn spec_named(name: Seq<char>) -> Option<Kind> {
        if name == "live"@ {
            Some(Kind::Live)
        } else if name == "movie"@ {
            Some(Kind::Movie)
        } else if name == "serie"@ {
            Some(Kind::Serie)
        } else {
            None
        }
    }

    /// The kind that a request speaks of by a name.
    pub fn named(name: &str) -> (r: Option<Kind>)
        ensures
            r == Kind::spec_named(name@),
    {
        if same_text(name, "live") {
            Some(Kind::Live)
        } else if same_text(name, "movie") {
            Some(Kind::Movie)
        } else if same_text(name, "serie") {
            Some(Kind::Serie)
        } else {
            None
        }
    }

    /// The path segment that the upstream files the kind under.
    pub open spec fn spec_segment(&self) -> Seq<char> {
        match self {
            Kind::Live => "live"@,
            Kind::Movie => "movie"@,
            Kind::Serie => "series"@,
        }
    }

    /// The path segment that the upstream files the kind under.
    pub fn segment(&self) -> (r: &'static str)
        ensures
            r@ == self.spec_segment(),
    {
        match self {
            Kind::Live => "live",
            Kind::Movie => "movie",
            Kind::Serie => "series",
        }
    }
}

/// The address of a stream under an origin: the origin, the kind's
/// segment, the account's name and password, and the stream's identifier
/// with its file extension.
pub open spec fn stream_address(
    base: Seq<char>,
    kind: Kind,
    login: Login,
    id: Seq<char>,
    container_extension: Seq<char>,
) -> Seq<char> {
    base + "/"@ + kind.spec_segment() + "/"@ + login.username@ + "/"@ + login.password@ + "/"@ + id
        + "."@ + container_extension
}

/// The address of a stream for an account.
pub fn stream_link(base: String, kind: Kind, login: &Login, id: &str, container_extension: &str) -> (r:
    String)
    ensures
        r@ == stream_address(base@, kind, *login, id@, container_extension@),
{
    let mut out: String = base;
    out.append("/");
    out.append(kind.segment());
    out.append("/");
    out.append(login.username.as_str());
    out.append("/");
    out.append(login.password.as_str());
    out.append("/");
    out.append(id);
    out.append(".");
    out.append(container_extension);
    out
}

impl Tables {
    /// The answer to a request for the address of a stream: the token must
    /// name a session (`WrongAuthKey`) that has credentials
    /// (`AccountNotFound`) whose server address is a URL (`UrlParse`).
    pub open spec fn linked(
        self,
        auth_key: &str,
        kind: Kind,
        id: Seq<char>,
        container_extension: Seq<char>,
    ) -> ApiResult<Seq<char>> {
        match self.session_of(auth_key) {
            Err(e) => Err(e),
            Ok(session) => match self.login_of(&session) {
                Err(e) => Err(e),
                Ok(login) => match origin(login.server@) {
                    Err(e) => Err(e),
                    Ok(base) => Ok(stream_address(base, kind, login, id, container_extension)),
                },
            },
        }
    }
}

/// The address under which the account of the session that `auth_key`
/// names fetches the stream `id`.
pub fn link(db: &Database, auth_key: &str, kind: Kind, id: &str, container_extension: &str) -> (r:
    ApiResult<String>)
    ensures
        match db@.linked(auth_key, kind, id@, container_extension@) {
            Ok(text) => r is Ok && r->Ok_0@ == text,
            Err(e) => r == Err::<String, ApiError>(e),
        },
{
    let session = get_session(auth_key, db)?;
    let login = get_login(&session, db)?;
    let base: String = get_origin(login.server.as_str())?;
    Ok(stream_link(base, kind, &login, id, container_extension))
}

} // verus!

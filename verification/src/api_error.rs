//! The failures that the gateway reports, and how each is shown to a client.

use vstd::prelude::*;

verus! {

/// Every way in which a request can fail.
///
/// The first seven are decisions of the gateway itself; the others name the
/// collaborator that let it down.
#[derive(Copy, Clone, Debug, PartialEq, Eq, Structural)]
pub enum ApiError {
    /// The upstream answered with a status outside the successful range.
    RequestServerError,
    /// The session has no credentials, or the upstream does not know the account.
    AccountNotFound,
    /// A series position was sent without the episode it belongs to.
    NotFound,
    /// The episode is not one of the series.
    WrongEpisodeId,
    /// No session carries the token.
    WrongAuthKey,
    /// The profile is not one of the session's.
    WrongAvatar,
    /// No row or catalog item carries the identifier.
    WrongId,
    SystemTime,
    /// The store could not take the row.
    DataBase,
    ParseInt,
    /// The server address is not a URL.
    UrlParse,
    FromUtf8,
    /// The upstream could not be reached.
    Reqwest,
    Channel,
    Poison,
    /// The upstream's answer is outside what the decoding rules tolerate.
    Serde,
    /// The system's random source failed.
    OsRng,
    Io,
}

pub type ApiResult<T> = Result<T, ApiError>;

impl ApiError {
    /// The position of the variant in the declaration, counted from zero.
    pub open spec fn spec_code(self) -> u8 {
        match self {
            ApiError::RequestServerError => 0,
            ApiError::AccountNotFound => 1,
            ApiError::NotFound => 2,
            ApiError::WrongEpisodeId => 3,
            ApiError::WrongAuthKey => 4,
            ApiError::WrongAvatar => 5,
            ApiError::WrongId => 6,
            ApiError::SystemTime => 7,
            ApiError::DataBase => 8,
            ApiError::ParseInt => 9,
            ApiError::UrlParse => 10,
            ApiError::FromUtf8 => 11,
            ApiError::Reqwest => 12,
            ApiError::Channel => 13,
            ApiError::Poison => 14,
            ApiError::Serde => 15,
            ApiError::OsRng => 16,
            ApiError::Io => 17,
        }
    }

    /// The variant's name, as a client reads it in the `hint` of an error body.
    pub open spec fn spec_hint(self) -> Seq<char> {
        match self {
            ApiError::RequestServerError => "RequestServerError"@,
            ApiError::AccountNotFound => "AccountNotFound"@,
            ApiError::NotFound => "NotFound"@,
            ApiError::WrongEpisodeId => "WrongEpisodeId"@,
            ApiError::WrongAuthKey => "WrongAuthKey"@,
            ApiError::WrongAvatar => "WrongAvatar"@,
            ApiError::WrongId => "WrongId"@,
            ApiError::SystemTime => "SystemTime"@,
            ApiError::DataBase => "DataBase"@,
            ApiError::ParseInt => "ParseInt"@,
            ApiError::UrlParse => "UrlParse"@,
            ApiError::FromUtf8 => "FromUtf8"@,
            ApiError::Reqwest => "Reqwest"@,
            ApiError::Channel => "Channel"@,
            ApiError::Poison => "Poison"@,
            ApiError::Serde => "Serde"@,
            ApiError::OsRng => "OsRng"@,
            ApiError::Io => "Io"@,
        }
    }

    /// The HTTP status that carries the failure: 404 for a missing episode
    /// identifier, 500 for everything else.
    pub open spec fn spec_status(self) -> u16 {
        if self == ApiError::NotFound {
            404
        } else {
            500
        }
    }

    /// The number sent as `error` in an error body.
    #[verifier::when_used_as_spec(spec_code)]
    pub fn code(self) -> (r: u8)
        ensures
            r == self.spec_code(),
    {
        match self {
            ApiError::RequestServerError => 0,
            ApiError::AccountNotFound => 1,
            ApiError::NotFound => 2,
            ApiError::WrongEpisodeId => 3,
            ApiError::WrongAuthKey => 4,
            ApiError::WrongAvatar => 5,
            ApiError::WrongId => 6,
            ApiError::SystemTime => 7,
            ApiError::DataBase => 8,
            ApiError::ParseInt => 9,
            ApiError::UrlParse => 10,
            ApiError::FromUtf8 => 11,
            ApiError::Reqwest => 12,
            ApiError::Channel => 13,
            ApiError::Poison => 14,
            ApiError::Serde => 15,
            ApiError::OsRng => 16,
            ApiError::Io => 17,
        }
    }

    /// The text sent as `hint` in an error body.
    pub fn hint(self) -> (r: String)
        ensures
            r@ == self.spec_hint(),
    {
        let name: &str = match self {
            ApiError::RequestServerError => "RequestServerError",
            ApiError::AccountNotFound => "AccountNotFound",
            ApiError::NotFound => "NotFound",
            ApiError::WrongEpisodeId => "WrongEpisodeId",
            ApiError::WrongAuthKey => "WrongAuthKey",
            ApiError::WrongAvatar => "WrongAvatar",
            ApiError::WrongId => "WrongId",
            ApiError::SystemTime => "SystemTime",
            ApiError::DataBase => "DataBase",
            ApiError::ParseInt => "ParseInt",
            ApiError::UrlParse => "UrlParse",
            ApiError::FromUtf8 => "FromUtf8",
            ApiError::Reqwest => "Reqwest",
            ApiError::Channel => "Channel",
            ApiError::Poison => "Poison",
            ApiError::Serde => "Serde",
            ApiError::OsRng => "OsRng",
            ApiError::Io => "Io",
        };
        name.to_owned()
    }

    /// The HTTP status of the response that reports the failure.
    #[verifier::when_used_as_spec(spec_status)]
    pub fn status(self) -> (r: u16)
        ensures
            r == self.spec_status(),
    {
        match self {
            ApiError::NotFound => 404,
            _ => 500,
        }
    }
}

/// Replaces whatever error a result carries by one of the caller's choosing.
pub trait ErrAs<T> {
    fn err_as<O>(self, op: O) -> Result<T, O>;
}

impl<T, E> ErrAs<T> for Result<T, E> {
    fn err_as<O>(self, op: O) -> (r: Result<T, O>)
        ensures
            r == match self {
                Ok(t) => Ok::<T, O>(t),
                Err(_) => Err::<T, O>(op),
            },
    {
        match self {
            Ok(t) => Ok(t),
            Err(_) => Err(op),
        }
    }
}

} // verus!

//! The address of an upstream server, as the `url` crate reads it.

use crate::api_error::{ApiError, ApiResult};
use vstd::prelude::*;

verus! {

/// `url::Url`: a parsed URL, of which only what the wrappers below say is known.
#[verifier::external_type_specification]
#[verifier::external_body]
pub struct ExUrl(url::Url);

/// `url::ParseError`: why a text is no URL.
#[verifier::external_type_specification]
#[verifier::external_body]
pub struct ExParseError(url::ParseError);

/// The serialization of the URL that a text is read as, where it is one.
pub uninterp spec fn url_parsed(text: Seq<char>) -> Option<Seq<char>>;

/// The serialization that a URL holds.
pub uninterp spec fn url_text(address: url::Url) -> Seq<char>;

/// The path of the URL with this serialization.
pub uninterp spec fn url_path(text: Seq<char>) -> Seq<char>;

/// The serialization of a URL after its path was set.
pub uninterp spec fn url_with_path(text: Seq<char>, path: Seq<char>) -> Seq<char>;

/// The origin of the URL with this serialization, in its Unicode form.
pub uninterp spec fn url_origin(text: Seq<char>) -> Seq<char>;

/// The longest serialization whose path this crate sets.
pub const MAX_ADDRESS: usize = 0x0fff_ffff;

/// The longest serialization whose origin this crate asks for.
pub const MAX_ORIGIN_ADDRESS: usize = 4096;

/// The path that stands in for a missing one.
pub const DEFAULT_PATH: &'static str = "player_api.php";

/// `Url::parse`: whether the text is a URL, and which, depends on the text alone.
#[verifier::external_body]
fn parse_url(text: &str) -> (r: Result<url::Url, url::ParseError>)
    ensures
        match r {
            Ok(address) => url_parsed(text@) == Some(url_text(address)),
            Err(_) => url_parsed(text@) is None,
        },
{
    url::Url::parse(text)
}

/// `Url::path`: a part of the serialization, which the serialization decides.
#[verifier::external_body]
fn path_of(address: &url::Url) -> (r: String)
    ensures
        r@ == url_path(url_text(*address)),
{
    address.path().to_owned()
}

/// `Url::set_path`: the new serialization depends on the old one and on
/// the path alone. The method fails on a serialization that outgrows
/// thirty-two bits, which the bound on both lengths keeps far away.
#[verifier::external_body]
fn set_path(address: &mut url::Url, path: &str)
    requires
        url_text(*old(address)).len() <= MAX_ADDRESS,
        path@.len() <= 64,
    ensures
        url_text(*final(address)) == url_with_path(url_text(*old(address)), path@),
{
    address.set_path(path)
}

/// `Url::as_str`: the serialization that the URL holds.
#[verifier::external_body]
fn text_of(address: &url::Url) -> (r: String)
    ensures
        r@ == url_text(*address),
{
    address.as_str().to_owned()
}

/// `Url::origin`, then `Origin::unicode_serialization`: scheme, host and
/// port of the URL, which the serialization decides. For a `blob:` URL the
/// method calls itself on the URL inside, once for each nesting, which
/// the bound on the length keeps shallow.
#[verifier::external_body]
fn origin_of(address: &url::Url) -> (r: String)
    requires
        url_text(*address).len() <= MAX_ORIGIN_ADDRESS,
    ensures
        r@ == url_origin(url_text(*address)),
{
    address.origin().unicode_serialization()
}

impl From<url::ParseError> for ApiError {
    fn from(error: url::ParseError) -> (r: ApiError) {
        ApiError::UrlParse
    }
}

impl vstd::std_specs::convert::FromSpecImpl<url::ParseError> for ApiError {
    open spec fn obeys_from_spec() -> bool {
        true
    }

    open spec fn from_spec(error: url::ParseError) -> ApiError {
        ApiError::UrlParse
    }
}

/// Whether a path is the one that a URL without a path has.
pub fn is_root(path: &String) -> (r: bool)
    ensures
        r == (path@ == "/"@),
{
    let root: String = "/".to_owned();
    *path == root
}

/// The stored form of a server address: the serialization of the URL that
/// the address is, with the default path where the URL has none.
/// `UrlParse` where the address is no URL, or has no path and a
/// serialization of more than `MAX_ADDRESS` characters.
pub open spec fn normalized(server: Seq<char>) -> ApiResult<Seq<char>> {
    match url_parsed(server) {
        None => Err(ApiError::UrlParse),
        Some(text) => if url_path(text) == "/"@ {
            if text.len() > MAX_ADDRESS {
                Err(ApiError::UrlParse)
            } else {
                Ok(url_with_path(text, DEFAULT_PATH@))
            }
        } else {
            Ok(text)
        },
    }
}

/// The stored form of a server address.
pub fn normalize(server: &str) -> (r: ApiResult<String>)
    ensures
        match normalized(server@) {
            Ok(text) => r is Ok && r->Ok_0@ == text,
            Err(e) => r == Err::<String, ApiError>(e),
        },
{
    let mut address: url::Url = match parse_url(server) {
        Ok(address) => address,
        Err(error) => { return Err(ApiError::from(error)); },
    };
    let path: String = path_of(&address);
    if is_root(&path) {
        let text: String = text_of(&address);
        if text.as_str().unicode_len() > MAX_ADDRESS {
            return Err(ApiError::UrlParse);
        }
        proof {
            reveal_strlit("player_api.php");
        }
        set_path(&mut address, DEFAULT_PATH);
    }
    Ok(text_of(&address))
}

/// The origin of a server address: scheme, host and port. `UrlParse`
/// where the address is no URL, or one whose serialization has more than
/// `MAX_ORIGIN_ADDRESS` characters.
pub open spec fn origin(server: Seq<char>) -> ApiResult<Seq<char>> {
    match url_parsed(server) {
        None => Err(ApiError::UrlParse),
        Some(text) => if text.len() > MAX_ORIGIN_ADDRESS {
            Err(ApiError::UrlParse)
        } else {
            Ok(url_origin(text))
        },
    }
}

/// The origin of a server address.
pub fn get_origin(server: &str) -> (r: ApiResult<String>)
    ensures
        match origin(server@) {
            Ok(text) => r is Ok && r->Ok_0@ == text,
            Err(e) => r == Err::<String, ApiError>(e),
        },
{
    let address: url::Url = match parse_url(server) {
        Ok(address) => address,
        Err(error) => { return Err(ApiError::from(error)); },
    };
    let text: String = text_of(&address);
    if text.as_str().unicode_len() > MAX_ORIGIN_ADDRESS {
        return Err(ApiError::UrlParse);
    }
    Ok(origin_of(&address))
}

} // verus!

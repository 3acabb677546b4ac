//! What every upstream request and every upstream answer has in common:
//! the parameters of a request, and the rules by which the loosely typed
//! fields of an answer are read.

use crate::api_error::{ApiError, ApiResult};
use crate::entities::prelude::Login;
use crate::json::{parse, parsed, Json};
use crate::number::{int_of, int_text, parse_int, parse_rating, rating_of, write_int};
use vstd::prelude::*;

verus! {

/// The identifier that a request carries, by what it identifies.
#[derive(Clone, Copy, Debug, PartialEq, Eq, Structural)]
pub enum IdType {
    Live(i64),
    Movie(i64),
    Serie(i64),
    Category(i64),
}

impl IdType {
    /// The name of the query parameter that carries the identifier.
    pub open spec fn spec_name(&self) -> Seq<char> {
        match self {
            IdType::Live(_) => "stream_id"@,
            IdType::Movie(_) => "vod_id"@,
            IdType::Serie(_) => "series_id"@,
            IdType::Category(_) => "category_id"@,
        }
    }

    /// The identifier itself.
    pub open spec fn spec_value(&self) -> i64 {
        match self {
            IdType::Live(id) => *id,
            IdType::Movie(id) => *id,
            IdType::Serie(id) => *id,
            IdType::Category(id) => *id,
        }
    }

    /// The name of the query parameter that carries the identifier.
    pub fn name(&self) -> (r: &'static str)
        ensures
            r@ == self.spec_name(),
    {
        match self {
            IdType::Live(_) => "stream_id",
            IdType::Movie(_) => "vod_id",
            IdType::Serie(_) => "series_id",
            IdType::Category(_) => "category_id",
        }
    }

    /// The identifier itself.
    #[verifier::when_used_as_spec(spec_value)]
    pub fn value(&self) -> (r: i64)
        ensures
            r == self.spec_value(),
    {
        match self {
            IdType::Live(id) => *id,
            IdType::Movie(id) => *id,
            IdType::Serie(id) => *id,
            IdType::Category(id) => *id,
        }
    }
}

/// The parameters of one upstream request.
#[derive(Debug)]
pub struct Params<'a> {
    /// The account in whose name the request is made.
    pub login: &'a Login,
    /// What is asked for; nothing asks for the account itself.
    pub action: Option<&'a str>,
    pub id: Option<IdType>,
}

impl<'a> Params<'a> {
    /// The parameters of a request about the account itself.
    pub fn new(login: &'a Login) -> (r: Params<'a>)
        ensures
            r.login == login,
            r.action is None,
            r.id is None,
    {
        Params { login, action: None, id: None }
    }
}

/// One parameter of a request's query: its name and its value.
#[derive(Clone, Debug, PartialEq, Eq)]
pub struct Pair {
    pub name: String,
    pub value: String,
}

/// A query parameter, as the two texts that it is made of.
pub open spec fn pair_texts(pair: Pair) -> (Seq<char>, Seq<char>) {
    (pair.name@, pair.value@)
}

impl<'a> Params<'a> {
    /// The query of the request: the account's name and password, then the
    /// action where there is one, then the identifier where there is one,
    /// under the name that tells what it identifies.
    pub open spec fn spec_query(&self) -> Seq<(Seq<char>, Seq<char>)> {
        let account = seq![("username"@, self.login.username@), ("password"@, self.login.password@)];
        let action = match self.action {
            Some(action) => seq![("action"@, action@)],
            None => Seq::empty(),
        };
        let id = match self.id {
            Some(id) => seq![(id.spec_name(), int_text(id.spec_value() as int))],
            None => Seq::empty(),
        };
        account + action + id
    }

    /// The address that the request goes to: the server of the account.
    pub fn server(&self) -> (r: &'a str)
        ensures
            r@ == self.login.server@,
    {
        self.login.server.as_str()
    }

    /// The query of the request.
    pub fn query(&self) -> (r: Vec<Pair>)
        ensures
            r@.map_values(|pair: Pair| pair_texts(pair)) == self.spec_query(),
    {
        let mut out: Vec<Pair> = Vec::new();
        out.push(Pair { name: "username".to_owned(), value: self.login.username.clone() });
        out.push(Pair { name: "password".to_owned(), value: self.login.password.clone() });
        match self.action {
            Some(action) => {
                out.push(Pair { name: "action".to_owned(), value: action.to_owned() });
            },
            None => {},
        }
        match self.id {
            Some(id) => {
                out.push(Pair { name: id.name().to_owned(), value: write_int(id.value()) });
            },
            None => {},
        }
        assert(out@.map_values(|pair: Pair| pair_texts(pair)) =~= self.spec_query());
        out
    }
}

/// How an upstream request ended, as far as the transport goes.
#[derive(Clone, Debug, PartialEq, Eq)]
pub enum Outcome {
    /// No answer came, or its body could not be read.
    Unreachable,
    /// An answer came, with its status and its body.
    Answer { status: u16, body: String },
}

/// Whether a status says that the request succeeded.
pub open spec fn successful(status: u16) -> bool {
    200 <= status < 300
}

/// What an outcome means for the caller: `Reqwest` where no answer came,
/// `RequestServerError` where the status is not a success, `Serde` where
/// the body is not JSON, and else the document that the body is.
pub open spec fn document_of(outcome: Outcome) -> ApiResult<Json> {
    match outcome {
        Outcome::Unreachable => Err(ApiError::Reqwest),
        Outcome::Answer { status, body } => if successful(status) {
            parsed(body@)
        } else {
            Err(ApiError::RequestServerError)
        },
    }
}

/// The document that the upstream answered with.
pub fn get_json(outcome: &Outcome) -> (r: ApiResult<Json>)
    ensures
        r == document_of(*outcome),
{
    match outcome {
        Outcome::Unreachable => Err(ApiError::Reqwest),
        Outcome::Answer { status, body } => {
            if 200 <= *status && *status < 300 {
                parse(body.as_str())
            } else {
                Err(ApiError::RequestServerError)
            }
        },
    }
}

/// The number of seconds in a day.
pub const DAY: i64 = 86400;

/// The instant `days` days before `now`, where sixty-four bits hold it,
/// and else the nearest instant that they hold.
pub open spec fn days_before(now: i64, days: i64) -> i64 {
    let at = now - days * DAY;
    if at < i64::MIN {
        i64::MIN
    } else if at > i64::MAX {
        i64::MAX
    } else {
        at as i64
    }
}

/// The instant `days` days before `now`.
pub fn get_days_ago(now: i64, days: i64) -> (r: i64)
    ensures
        r == days_before(now, days),
{
    let at: i128 = (now as i128) - (days as i128) * (DAY as i128);
    if at < i64::MIN as i128 {
        i64::MIN
    } else if at > i64::MAX as i128 {
        i64::MAX
    } else {
        at as i64
    }
}

/// Reading through an optional value.
pub trait CustomDeref<T> {
    /// The value behind the option, or the error of the caller's choosing.
    fn deref_or_else<E>(&self, err: E) -> Result<&T, E>;
}

impl<T> CustomDeref<T> for Option<T> {
    fn deref_or_else<E>(&self, err: E) -> (r: Result<&T, E>)
        ensures
            r == match self {
                Some(value) => Ok::<&T, E>(value),
                None => Err::<&T, E>(err),
            },
    {
        match self {
            Some(value) => Ok(value),
            None => Err(err),
        }
    }
}

/// The text of a field that may be missing or null: a text is itself, null
/// and a missing field are the empty text, anything else is not a text.
pub open spec fn text_rule(field: Option<Json>) -> ApiResult<Seq<char>> {
    match field {
        None => Ok(Seq::empty()),
        Some(Json::Null) => Ok(Seq::empty()),
        Some(Json::Text(text)) => Ok(text@),
        Some(_) => Err(ApiError::Serde),
    }
}

/// The text that stands for a numeric field, if any does: a number and a
/// text stand for themselves, unless they are empty; null, an empty text
/// and a missing field stand for nothing; anything else is not numeric.
pub open spec fn numeric_text(field: Option<Json>) -> ApiResult<Option<Seq<char>>> {
    match field {
        None => Ok(None),
        Some(Json::Null) => Ok(None),
        Some(Json::Number(text)) => if text@.len() == 0 {
            Ok(None)
        } else {
            Ok(Some(text@))
        },
        Some(Json::Text(text)) => if text@.len() == 0 {
            Ok(None)
        } else {
            Ok(Some(text@))
        },
        Some(_) => Err(ApiError::Serde),
    }
}

/// The number of an optional numeric field: absent where nothing stands
/// for it, the number that the text stands for, and an error where the
/// text is no whole number.
pub open spec fn optional_rule(field: Option<Json>) -> ApiResult<Option<i64>> {
    match numeric_text(field) {
        Err(e) => Err(e),
        Ok(None) => Ok(None),
        Ok(Some(text)) => match int_of(text) {
            Some(n) => Ok(Some(n)),
            None => Err(ApiError::Serde),
        },
    }
}

/// The number of a numeric field: zero where nothing stands for it.
pub open spec fn number_rule(field: Option<Json>) -> ApiResult<i64> {
    match optional_rule(field) {
        Err(e) => Err(e),
        Ok(None) => Ok(0),
        Ok(Some(n)) => Ok(n),
    }
}

/// The rating of a field, in thousandths: absent where nothing stands for
/// it, and an error where the text is no decimal number.
///
/// A decimal number here is an optional sign and digits with at most one
/// decimal point. Two things follow. Digits beyond the third behind the
/// point are cut, not rounded: `7.4569` reads as 7456. And a number
/// written with an exponent, such as `1e1`, is no decimal number: it is an
/// error, although it is a number in JSON.
pub open spec fn rating_rule(field: Option<Json>) -> ApiResult<Option<i64>> {
    match numeric_text(field) {
        Err(e) => Err(e),
        Ok(None) => Ok(None),
        Ok(Some(text)) => match rating_of(text) {
            Some(n) => Ok(Some(n)),
            None => Err(ApiError::Serde),
        },
    }
}

/// One rule for every numeric field: null and the empty text read as the
/// default, a number and a text of the same digits read alike, and a value
/// of any other shape is an error, whichever of the three rules reads it.
pub proof fn lemma_numeric_shapes(field: Json, number: String, text: String)
    ensures
        number_rule(Some(Json::Null)) == Ok::<i64, ApiError>(0),
        optional_rule(Some(Json::Null)) == Ok::<Option<i64>, ApiError>(None),
        rating_rule(Some(Json::Null)) == Ok::<Option<i64>, ApiError>(None),
        text@.len() == 0 ==> {
            &&& number_rule(Some(Json::Text(text))) == Ok::<i64, ApiError>(0)
            &&& optional_rule(Some(Json::Text(text))) == Ok::<Option<i64>, ApiError>(None)
            &&& rating_rule(Some(Json::Text(text))) == Ok::<Option<i64>, ApiError>(None)
        },
        number@ == text@ ==> {
            &&& number_rule(Some(Json::Number(number))) == number_rule(Some(Json::Text(text)))
            &&& optional_rule(Some(Json::Number(number))) == optional_rule(Some(Json::Text(text)))
            &&& rating_rule(Some(Json::Number(number))) == rating_rule(Some(Json::Text(text)))
        },
        !(field is Null || field is Number || field is Text) ==> {
            &&& number_rule(Some(field)) == Err::<i64, ApiError>(ApiError::Serde)
            &&& optional_rule(Some(field)) == Err::<Option<i64>, ApiError>(ApiError::Serde)
            &&& rating_rule(Some(field)) == Err::<Option<i64>, ApiError>(ApiError::Serde)
        },
{
}

/// Reads a text field by `text_rule`.
pub fn default_on_null(field: Option<&Json>) -> (r: ApiResult<String>)
    ensures
        match text_rule(lifted(field)) {
            Ok(text) => r is Ok && r->Ok_0@ == text,
            Err(e) => r == Err::<String, ApiError>(e),
        },
{
    match field {
        None => Ok(String::new()),
        Some(Json::Null) => Ok(String::new()),
        Some(Json::Text(text)) => Ok(text.clone()),
        Some(_) => Err(ApiError::Serde),
    }
}

/// An optional reference, as the optional value behind it.
pub open spec fn lifted(field: Option<&Json>) -> Option<Json> {
    match field {
        Some(json) => Some(*json),
        None => None,
    }
}

/// Reads the text that stands for a numeric field, by `numeric_text`.
pub fn numeric_field(field: Option<&Json>) -> (r: ApiResult<Option<&str>>)
    ensures
        match numeric_text(lifted(field)) {
            Ok(Some(text)) => r is Ok && r->Ok_0 is Some && r->Ok_0->Some_0@ == text,
            Ok(None) => r == Ok::<Option<&str>, ApiError>(None),
            Err(e) => r == Err::<Option<&str>, ApiError>(e),
        },
{
    match field {
        None => Ok(None),
        Some(Json::Null) => Ok(None),
        Some(Json::Number(text)) => {
            if text.as_str().unicode_len() == 0 {
                Ok(None)
            } else {
                Ok(Some(text.as_str()))
            }
        },
        Some(Json::Text(text)) => {
            if text.as_str().unicode_len() == 0 {
                Ok(None)
            } else {
                Ok(Some(text.as_str()))
            }
        },
        Some(_) => Err(ApiError::Serde),
    }
}

/// Reads an optional numeric field by `optional_rule`.
pub fn opt_num_from_str_or_num(field: Option<&Json>) -> (r: ApiResult<Option<i64>>)
    ensures
        r == optional_rule(lifted(field)),
{
    match numeric_field(field) {
        Err(e) => Err(e),
        Ok(None) => Ok(None),
        Ok(Some(text)) => match parse_int(text) {
            Some(n) => Ok(Some(n)),
            None => Err(ApiError::Serde),
        },
    }
}

/// Reads a numeric field by `number_rule`.
pub fn num_from_str_or_num(field: Option<&Json>) -> (r: ApiResult<i64>)
    ensures
        r == number_rule(lifted(field)),
{
    match opt_num_from_str_or_num(field) {
        Err(e) => Err(e),
        Ok(None) => Ok(0),
        Ok(Some(n)) => Ok(n),
    }
}

/// Reads a rating by `rating_rule`.
pub fn rating_from_str_or_num(field: Option<&Json>) -> (r: ApiResult<Option<i64>>)
    ensures
        r == rating_rule(lifted(field)),
{
    match numeric_field(field) {
        Err(e) => Err(e),
        Ok(None) => Ok(None),
        Ok(Some(text)) => match parse_rating(text) {
            Some(n) => Ok(Some(n)),
            None => Err(ApiError::Serde),
        },
    }
}

} // verus!

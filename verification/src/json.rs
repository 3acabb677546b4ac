//! A JSON document as the decoding rules see it: a number is kept as the
//! text of its digits, and an object keeps its members in a list.

use crate::api_error::ApiError;
use vstd::prelude::*;

verus! {

/// A JSON value.
#[derive(Debug, PartialEq, Eq)]
pub enum Json {
    Null,
    Bool(bool),
    /// A number, by the text of its digits.
    Number(String),
    Text(String),
    Array(Vec<Json>),
    Object(Vec<Member>),
}

/// A member of a JSON object.
#[derive(Debug, PartialEq, Eq)]
pub struct Member {
    pub name: String,
    pub value: Json,
}

/// `serde_json::Value`: a parsed document, of which only what `value_json` names is known.
#[verifier::external_type_specification]
#[verifier::external_body]
pub struct ExValue(serde_json::Value);

/// `serde_json::Error`: why a text is no JSON.
#[verifier::external_type_specification]
#[verifier::external_body]
pub struct ExError(serde_json::Error);

/// The document that a text is, where it is JSON.
pub uninterp spec fn json_document(text: Seq<char>) -> Option<Json>;

/// The document that a parsed value holds.
pub uninterp spec fn value_json(value: serde_json::Value) -> Json;

/// `serde_json::from_str`, for a `serde_json::Value`: the text is parsed
/// as one JSON document. That the result, as a `Json`, depends on the text
/// alone is all that is claimed.
#[verifier::external_body]
fn parse_value(text: &str) -> (r: Result<serde_json::Value, serde_json::Error>)
    ensures
        match r {
            Ok(value) => json_document(text@) == Some(value_json(value)),
            Err(_) => json_document(text@) is None,
        },
{
    serde_json::from_str::<serde_json::Value>(text)
}

/// The variants of `serde_json::Value`, one for one: a number gives the
/// text that `Number::as_str` holds, an object its members in the order in
/// which `Map::iter` walks them.
#[verifier::external_body]
fn json_of_value(value: &serde_json::Value) -> (r: Json)
    ensures
        r == value_json(*value),
{
    match value {
        serde_json::Value::Null => Json::Null,
        serde_json::Value::Bool(b) => Json::Bool(*b),
        serde_json::Value::Number(n) => Json::Number(n.as_str().to_owned()),
        serde_json::Value::String(s) => Json::Text(s.clone()),
        serde_json::Value::Array(items) => Json::Array(items.iter().map(json_of_value).collect()),
        serde_json::Value::Object(members) => Json::Object(
            members.iter().map(|(k, v)| Member { name: k.clone(), value: json_of_value(v) }).collect(),
        ),
    }
}

impl From<serde_json::Error> for ApiError {
    fn from(error: serde_json::Error) -> (r: ApiError) {
        ApiError::Serde
    }
}

impl vstd::std_specs::convert::FromSpecImpl<serde_json::Error> for ApiError {
    open spec fn obeys_from_spec() -> bool {
        true
    }

    open spec fn from_spec(error: serde_json::Error) -> ApiError {
        ApiError::Serde
    }
}

/// What parsing a text as JSON gives: the document, or `Serde` where the
/// text is not JSON.
pub open spec fn parsed(text: Seq<char>) -> Result<Json, ApiError> {
    match json_document(text) {
        Some(json) => Ok(json),
        None => Err(ApiError::Serde),
    }
}

/// Parses a text as one JSON document.
pub fn parse(text: &str) -> (r: Result<Json, ApiError>)
    ensures
        r == parsed(text@),
{
    match parse_value(text) {
        Ok(value) => Ok(json_of_value(&value)),
        Err(error) => Err(ApiError::from(error)),
    }
}

/// Whether a text is letter for letter a given one.
pub fn text_is(text: &String, other: &str) -> (r: bool)
    ensures
        r == (text@ == other@),
{
    let owned: String = other.to_owned();
    *text == owned
}

/// Whether two texts are letter for letter the same.
pub fn same_text(text: &str, other: &str) -> (r: bool)
    ensures
        r == (text@ == other@),
{
    let owned: String = text.to_owned();
    text_is(&owned, other)
}

/// Whether `i` is the place of the first member of the list with this name.
pub open spec fn is_member_at(members: Seq<Member>, name: Seq<char>, i: int) -> bool {
    &&& 0 <= i < members.len()
    &&& members[i].name@ == name
    &&& forall|j: int| 0 <= j < i ==> (#[trigger] members[j]).name@ != name
}

/// Whether a member of the list has this name.
pub open spec fn has_member(members: Seq<Member>, name: Seq<char>) -> bool {
    exists|i: int| 0 <= i < members.len() && (#[trigger] members[i]).name@ == name
}

impl Json {
    /// Whether the value is an object.
    pub fn is_object(&self) -> (r: bool)
        ensures
            r == (self is Object),
    {
        match self {
            Json::Object(_) => true,
            _ => false,
        }
    }

    /// The value of the first member with this name, where the value is an
    /// object that has one.
    pub open spec fn spec_get(&self, name: Seq<char>) -> Option<Json> {
        match self {
            Json::Object(members) => if has_member(members@, name) {
                Some(members@[choose|i: int| is_member_at(members@, name, i)].value)
            } else {
                None
            },
            _ => None,
        }
    }

    /// The value of the first member with this name, where the value is an
    /// object that has one.
    pub fn get(&self, name: &str) -> (r: Option<&Json>)
        ensures
            r == match self.spec_get(name@) {
                Some(json) => Some(&json),
                None => None,
            },
    {
        match self {
            Json::Object(members) => {
                let mut i: usize = 0;
                while i < members.len()
                    invariant
                        i <= members.len(),
                        self == Json::Object(*members),
                        forall|j: int| 0 <= j < i ==> (#[trigger] members@[j]).name@ != name@,
                    decreases members.len() - i,
                {
                    if text_is(&members[i].name, name) {
                        proof {
                            assert(is_member_at(members@, name@, i as int));
                            assert(has_member(members@, name@));
                            let k = choose|k: int| is_member_at(members@, name@, k);
                            if k < i {
                                assert(members@[k].name@ != name@);
                            } else if i < k {
                                assert(members@[i as int].name@ != name@);
                            }
                        }
                        return Some(&members[i].value);
                    }
                    i += 1;
                }
                None
            },
            _ => None,
        }
    }

    /// The value under the first of two names that the object has.
    pub open spec fn spec_get2(&self, name: Seq<char>, old_name: Seq<char>) -> Option<Json> {
        match self.spec_get(name) {
            Some(json) => Some(json),
            None => self.spec_get(old_name),
        }
    }

    /// The value under the first of three names that the object has.
    pub open spec fn spec_get3(&self, name: Seq<char>, old_name: Seq<char>, older_name: Seq<char>) -> Option<
        Json,
    > {
        match self.spec_get(name) {
            Some(json) => Some(json),
            None => self.spec_get2(old_name, older_name),
        }
    }

    /// The value of a field that has had two names: the current name is
    /// tried first, then the earlier one, and the first that the object
    /// has decides.
    pub fn get2(&self, name: &str, old_name: &str) -> (r: Option<&Json>)
        ensures
            r == match self.spec_get2(name@, old_name@) {
                Some(json) => Some(&json),
                None => None,
            },
    {
        match self.get(name) {
            Some(json) => Some(json),
            None => self.get(old_name),
        }
    }

    /// The value of a field that has had three names, tried in order.
    pub fn get3(&self, name: &str, old_name: &str, older_name: &str) -> (r: Option<&Json>)
        ensures
            r == match self.spec_get3(name@, old_name@, older_name@) {
                Some(json) => Some(&json),
                None => None,
            },
    {
        match self.get(name) {
            Some(json) => Some(json),
            None => self.get2(old_name, older_name),
        }
    }
}

} // verus!

//! JSON values as the library reads them.

use vstd::prelude::*;

use crate::real64::Real64;
use crate::text::{same_text, trim, trimmed};

verus! {

/// A JSON value.
#[derive(Debug)]
pub enum Json {
    Null,
    Bool(bool),
    /// A number, as a whole number where it is one that fits, and as a double.
    Number(Option<i64>, Option<Real64>),
    Text(String),
    List(Vec<Json>),
    /// The members of an object; no name occurs twice.
    Object(Vec<(String, Json)>),
}

/// A value as the JSON parser hands it out.
#[verifier::external_type_specification]
#[verifier::external_body]
pub struct ExValue(serde_json::Value);

/// What a parsed value holds.
pub uninterp spec fn value_contents(v: serde_json::Value) -> Json;

/// What `serde_json::from_str` makes of a text: the value, or the message of
/// the error.
pub uninterp spec fn json_of(text: Seq<char>) -> Result<Json, Seq<char>>;

/// `serde_json::from_str`: the value that a text holds, or the error's message
/// where it is not JSON.
#[verifier::external_body]
fn read_value(text: &str) -> (r: Result<serde_json::Value, String>)
    ensures
        match r {
            Ok(v) => json_of(text@) == Ok::<Json, Seq<char>>(value_contents(v)),
            Err(e) => json_of(text@) == Err::<Json, Seq<char>>(e@),
        },
{
    serde_json::from_str(text).map_err(|e| e.to_string())
}

/// The value that the variants of `serde_json::Value` hold, one for one:
/// numbers by `as_i64` and `as_f64`, lists and objects member by member.
#[verifier::external_body]
fn take_value(v: serde_json::Value) -> (r: Json)
    ensures
        r == value_contents(v),
{
    match v {
        serde_json::Value::Null => Json::Null,
        serde_json::Value::Bool(b) => Json::Bool(b),
        serde_json::Value::Number(n) => {
            Json::Number(n.as_i64(), n.as_f64().map(|x| Real64 { bits: x.to_bits() }))
        },
        serde_json::Value::String(s) => Json::Text(s),
        serde_json::Value::Array(a) => Json::List(a.into_iter().map(take_value).collect()),
        serde_json::Value::Object(o) => {
            Json::Object(o.into_iter().map(|(k, m)| (k, take_value(m))).collect())
        },
    }
}

/// Parses a text as JSON.
pub fn parse_json(text: &str) -> (r: Result<Json, String>)
    ensures
        match r {
            Ok(j) => json_of(text@) == Ok::<Json, Seq<char>>(j),
            Err(e) => json_of(text@) == Err::<Json, Seq<char>>(e@),
        },
{
    match read_value(text) {
        Ok(v) => Ok(take_value(v)),
        Err(e) => Err(e),
    }
}

/// The first member of a list of members with a given name.
pub open spec fn member_of(members: Seq<(String, Json)>, key: Seq<char>) -> Option<Json>
    decreases members.len(),
{
    if members.len() == 0 {
        None
    } else if members[0].0@ == key {
        Some(members[0].1)
    } else {
        member_of(members.drop_first(), key)
    }
}

impl Json {
    /// The member `key` of an object.
    pub open spec fn member(self, key: Seq<char>) -> Option<Json> {
        match self {
            Json::Object(members) => member_of(members@, key),
            _ => None,
        }
    }

    /// The text, of a text.
    pub open spec fn text(self) -> Option<Seq<char>> {
        match self {
            Json::Text(s) => Some(s@),
            _ => None,
        }
    }

    /// The text of the member `key`.
    pub open spec fn text_at(self, key: Seq<char>) -> Option<Seq<char>> {
        match self.member(key) {
            Some(j) => j.text(),
            None => None,
        }
    }

    /// The double, of a number.
    pub open spec fn double(self) -> Option<Real64> {
        match self {
            Json::Number(_, r) => r,
            _ => None,
        }
    }

    /// The whole number, of a number that is one.
    pub open spec fn whole(self) -> Option<i64> {
        match self {
            Json::Number(w, _) => w,
            _ => None,
        }
    }

    /// The member `key` of an object.
    pub fn get(&self, key: &str) -> (r: Option<&Json>)
        ensures
            match r {
                Some(j) => self.member(key@) == Some(*j),
                None => self.member(key@) is None,
            },
    {
        match self {
            Json::Object(members) => {
                proof {
                    assert(members@.skip(0) =~= members@);
                }
                let mut i: usize = 0;
                while i < members.len()
                    invariant
                        i <= members@.len(),
                        self.member(key@) == member_of(members@.skip(i as int), key@),
                    decreases members@.len() - i,
                {
                    if same_text(members[i].0.as_str(), key) {
                        return Some(&members[i].1);
                    }
                    proof {
                        assert(members@.skip(i as int).drop_first() =~= members@.skip(i + 1));
                    }
                    i += 1;
                }
                None
            },
            _ => None,
        }
    }

    /// The text of the member `key`.
    pub fn get_text(&self, key: &str) -> (r: Option<String>)
        ensures
            crate::text::opt_text(r) == self.text_at(key@),
    {
        match self.get(key) {
            Some(Json::Text(s)) => Some(s.clone()),
            _ => None,
        }
    }

    /// The double that the value holds.
    pub fn as_real(&self) -> (r: Option<Real64>)
        ensures
            r == self.double(),
    {
        match self {
            Json::Number(_, x) => *x,
            _ => None,
        }
    }

    /// The whole number that the value holds.
    pub fn as_whole(&self) -> (r: Option<i64>)
        ensures
            r == self.whole(),
    {
        match self {
            Json::Number(w, _) => *w,
            _ => None,
        }
    }
}

/// What a request body holds: blank text is null.
pub open spec fn body_json(body: Seq<char>) -> Result<Json, Seq<char>> {
    if trimmed(body).len() == 0 {
        Ok(Json::Null)
    } else {
        json_of(body)
    }
}

/// Parses a request body; blank text is null.
pub fn parse_body(body: &str) -> (r: Result<Json, String>)
    ensures
        match r {
            Ok(j) => body_json(body@) == Ok::<Json, Seq<char>>(j),
            Err(e) => body_json(body@) == Err::<Json, Seq<char>>(e@),
        },
{
    let t = trim(body);
    if t.as_str().unicode_len() == 0 {
        Ok(Json::Null)
    } else {
        parse_json(body)
    }
}

} // verus!

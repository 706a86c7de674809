//! JSON values that the library carries through without knowing their shape.
use vstd::prelude::*;
use vstd::string::*;

use crate::text_map::TextMap;

verus! {

/// A JSON value. A number that is no 64-bit signed integer keeps its text.
#[derive(Debug)]
pub enum Json {
    Null,
    Bool(bool),
    Int(i64),
    Number(String),
    Text(String),
    Array(Vec<Json>),
    Object(TextMap<Json>),
}

impl Json {
    /// The members of an object; any other value has none.
    pub open spec fn members(self) -> Map<Seq<char>, Json> {
        match self {
            Json::Object(m) => m@,
            _ => Map::empty(),
        }
    }

    /// The member of an object under a key.
    pub open spec fn member(self, key: Seq<char>) -> Option<Json> {
        if self.members().contains_key(key) {
            Some(self.members()[key])
        } else {
            None
        }
    }

    /// The text under a key, where there is one.
    pub open spec fn text_at(self, key: Seq<char>) -> Option<Seq<char>> {
        match self.member(key) {
            Some(Json::Text(s)) => Some(s@),
            _ => None,
        }
    }

    /// The truth value under a key, where there is one.
    pub open spec fn bool_at(self, key: Seq<char>) -> Option<bool> {
        match self.member(key) {
            Some(Json::Bool(b)) => Some(b),
            _ => None,
        }
    }

    /// The list under a key, where there is one.
    pub open spec fn array_at(self, key: Seq<char>) -> Option<Seq<Json>> {
        match self.member(key) {
            Some(Json::Array(a)) => Some(a@),
            _ => None,
        }
    }

    /// The member of an object under a key.
    pub fn get(&self, key: &str) -> (r: Option<&Json>)
        ensures
            r is Some <==> self.member(key@) is Some,
            r matches Some(v) ==> self.member(key@) == Some(*v),
    {
        match self {
            Json::Object(m) => m.get(key),
            _ => None,
        }
    }

    /// The text under a key, where there is one.
    pub fn get_text(&self, key: &str) -> (r: Option<&str>)
        ensures
            r is Some <==> self.text_at(key@) is Some,
            r matches Some(s) ==> self.text_at(key@) == Some(s@),
    {
        match self.get(key) {
            Some(Json::Text(s)) => Some(s.as_str()),
            _ => None,
        }
    }

    /// The truth value under a key, where there is one.
    pub fn get_bool(&self, key: &str) -> (r: Option<bool>)
        ensures
            r == self.bool_at(key@),
    {
        match self.get(key) {
            Some(Json::Bool(b)) => Some(*b),
            _ => None,
        }
    }

    /// The list under a key, where there is one.
    pub fn get_array(&self, key: &str) -> (r: Option<&Vec<Json>>)
        ensures
            r is Some <==> self.array_at(key@) is Some,
            r matches Some(a) ==> self.array_at(key@) == Some(a@),
    {
        match self.get(key) {
            Some(Json::Array(a)) => Some(a),
            _ => None,
        }
    }

    /// Sets a member of an object; any other value stays as it is.
    pub fn set(&mut self, key: &str, value: Json)
        ensures
            *old(self) is Object ==> *final(self) is Object && final(self).members() == old(
                self,
            ).members().insert(key@, value),
            !(*old(self) is Object) ==> *final(self) == *old(self),
    {
        match self {
            Json::Object(m) => {
                m.insert(key, value);
            },
            _ => {},
        }
    }
}

// ---- laws ---------------------------------------------------------------

/// What an object holds under a key is found by the kind of value that it is,
/// and under no key of any other value is there anything.
pub proof fn law_members(
    object: TextMap<Json>,
    key: Seq<char>,
    text: String,
    truth: bool,
    list: Vec<Json>,
    other: Json,
)
    ensures
        ({
            let j = Json::Object(object);
            &&& !object@.contains_key(key) ==> j.member(key) is None && j.text_at(key) is None
                && j.bool_at(key) is None && j.array_at(key) is None
            &&& object@.contains_key(key) ==> {
                let v = object@[key];
                &&& j.member(key) == Some(v)
                &&& v == Json::Text(text) ==> j.text_at(key) == Some(text@)
                &&& v == Json::Bool(truth) ==> j.bool_at(key) == Some(truth)
                &&& v == Json::Array(list) ==> j.array_at(key) == Some(list@)
                &&& !(v is Text) ==> j.text_at(key) is None
                &&& !(v is Bool) ==> j.bool_at(key) is None
                &&& !(v is Array) ==> j.array_at(key) is None
            }
        }),
        !(other is Object) ==> other.member(key) is None,
{
}

/// The members of an object are those of its map.
pub proof fn law_object(object: TextMap<Json>, other: Json)
    ensures
        Json::Object(object).members() == object@,
        !(other is Object) ==> other.members() == Map::<Seq<char>, Json>::empty(),
{
}

} // verus!

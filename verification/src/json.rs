//! A JSON document as plain data: what the feeds' replies hold once they
//! are parsed.

use vstd::prelude::*;
use vstd::string::StringExecFns;

verus! {

/// One JSON value. A number keeps its decimal text; an object keeps its
/// members in the order they were given.
#[derive(Debug)]
pub enum Json {
    Null,
    Bool(bool),
    Number(String),
    Text(String),
    Array(Vec<Json>),
    Object(Vec<(String, Json)>),
}

/// Entry `i` of `entries` is named `key`.
pub open spec fn key_at(entries: Seq<(String, Json)>, key: Seq<char>, i: int) -> bool {
    0 <= i < entries.len() && entries[i].0@ == key
}

/// Entry `i` of `entries` is the first one named `key`.
pub open spec fn is_first_key(entries: Seq<(String, Json)>, key: Seq<char>, i: int) -> bool {
    &&& key_at(entries, key, i)
    &&& forall|j: int| 0 <= j < i ==> entries[j].0@ != key
}

impl Json {
    /// The characters of a string value; `None` for any other value.
    pub open spec fn text(self) -> Option<Seq<char>> {
        match self {
            Json::Text(s) => Some(s@),
            _ => None,
        }
    }

    /// The elements of an array; `None` for any other value.
    pub open spec fn items(self) -> Option<Seq<Json>> {
        match self {
            Json::Array(items) => Some(items@),
            _ => None,
        }
    }

    /// The members of an object, in order; empty for any other value.
    pub open spec fn entries(self) -> Seq<(String, Json)> {
        match self {
            Json::Object(entries) => entries@,
            _ => Seq::empty(),
        }
    }

    /// This value is an object with a member named `key`.
    pub open spec fn has_member(self, key: Seq<char>) -> bool {
        exists|i: int| key_at(self.entries(), key, i)
    }

    /// The first member named `key`; `Null` where this value is no object
    /// or has no such member.
    pub open spec fn member(self, key: Seq<char>) -> Json {
        if self.has_member(key) {
            self.entries()[choose|i: int| is_first_key(self.entries(), key, i)].1
        } else {
            Json::Null
        }
    }

    /// Whether this value is `null`.
    pub fn is_null(&self) -> (yes: bool)
        ensures
            yes == (*self is Null),
    {
        match self {
            Json::Null => true,
            _ => false,
        }
    }

    /// Whether this value is a string.
    pub fn is_string(&self) -> (yes: bool)
        ensures
            yes == (self.text() is Some),
    {
        match self {
            Json::Text(_) => true,
            _ => false,
        }
    }

    /// The string that this value is, if it is one.
    pub fn as_str(&self) -> (found: Option<&str>)
        ensures
            match found {
                Some(s) => self.text() == Some(s@),
                None => self.text() is None,
            },
    {
        match self {
            Json::Text(s) => Some(s.as_str()),
            _ => None,
        }
    }

    /// The elements of the array that this value is, if it is one.
    pub fn as_array(&self) -> (found: Option<&Vec<Json>>)
        ensures
            match found {
                Some(items) => self.items() == Some(items@),
                None => self.items() is None,
            },
    {
        match self {
            Json::Array(items) => Some(items),
            _ => None,
        }
    }

    /// The first member named `key` of the object that this value is.
    pub fn get(&self, key: &str) -> (found: Option<&Json>)
        ensures
            match found {
                Some(value) => self.has_member(key@) && *value == self.member(key@),
                None => !self.has_member(key@),
            },
    {
        match self {
            Json::Object(entries) => {
                let wanted = String::from_str(key);
                let mut i: usize = 0;
                while i < entries.len()
                    invariant
                        i <= entries.len(),
                        wanted@ == key@,
                        self.entries() == entries@,
                        forall|j: int| 0 <= j < i ==> entries@[j].0@ != key@,
                    decreases entries.len() - i,
                {
                    if entries[i].0 == wanted {
                        proof {
                            assert(key_at(self.entries(), key@, i as int));
                            let first = choose|k: int| is_first_key(self.entries(), key@, k);
                            assert(is_first_key(self.entries(), key@, i as int));
                            assert(first == i);
                        }
                        return Some(&entries[i].1);
                    }
                    i += 1;
                }
                None
            },
            _ => None,
        }
    }
}

} // verus!

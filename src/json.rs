//! A JSON value as the normalizers read it, and typed accessors on it.

use vstd::prelude::*;
use crate::text::{trimmed, trim_text};

verus! {

/// A JSON value. Numbers are told apart only as far as the normalizers read
/// them: a non-negative integer that fits in `u64`, or any other number.
#[derive(Debug)]
pub enum Json {
    Null,
    Bool(bool),
    UInt(u64),
    OtherNumber,
    Str(String),
    Array(Vec<Json>),
    Object(Vec<(String, Json)>),
}

/// The value of the first entry named `key`, if any.
pub open spec fn entry_value(entries: Seq<(String, Json)>, key: Seq<char>) -> Option<Json>
    decreases entries.len(),
{
    if entries.len() == 0 {
        None
    } else if entries[0].0@ == key {
        Some(entries[0].1)
    } else {
        entry_value(entries.drop_first(), key)
    }
}

/// The field `key` of an object; nothing for any other value.
pub open spec fn field(v: Json, key: Seq<char>) -> Option<Json> {
    match v {
        Json::Object(entries) => entry_value(entries@, key),
        _ => None,
    }
}

/// The field `key` when it is a string that is not blank, trimmed.
pub open spec fn trimmed_field(v: Json, key: Seq<char>) -> Option<Seq<char>> {
    match field(v, key) {
        Some(Json::Str(s)) => if trimmed(s@).len() > 0 {
            Some(trimmed(s@))
        } else {
            None
        },
        _ => None,
    }
}

impl Json {
    /// The field `key` of an object; `None` for any other value.
    pub fn get(&self, key: &str) -> (r: Option<&Json>)
        ensures
            match r {
                Some(x) => field(*self, key@) == Some(*x),
                None => field(*self, key@) is None,
            },
    {
        match self {
            Json::Object(entries) => {
                let k = String::from_str(key);
                let mut i: usize = 0;
                proof {
                    assert(entries@.skip(0) == entries@);
                }
                while i < entries.len()
                    invariant
                        i <= entries@.len(),
                        k@ == key@,
                        *self == Json::Object(*entries),
                        entry_value(entries@, key@) == entry_value(entries@.skip(i as int), key@),
                    decreases entries@.len() - i,
                {
                    proof {
                        assert(entries@.skip(i as int).drop_first() == entries@.skip(i + 1));
                    }
                    if entries[i].0 == k {
                        proof {
                            assert(entries@.skip(i as int)[0] == entries@[i as int]);
                        }
                        return Some(&entries[i].1);
                    }
                    i = i + 1;
                }
                None
            },
            _ => None,
        }
    }
}

/// The string at `v`, trimmed, when it is a string that is not blank.
pub fn trimmed_string(v: Option<&Json>) -> (r: Option<String>)
    ensures
        match r {
            Some(s) => v matches Some(Json::Str(t)) && s@ == trimmed(t@) && s@.len() > 0,
            None => !(v matches Some(Json::Str(t)) && trimmed(t@).len() > 0),
        },
{
    match v {
        Some(Json::Str(s)) => {
            let t = trim_text(s.as_str());
            if t.as_str().is_empty() {
                None
            } else {
                Some(t)
            }
        },
        _ => None,
    }
}

/// The trimmed, non-blank string field `key` of `v`.
pub fn trimmed_field_of(v: &Json, key: &str) -> (r: Option<String>)
    ensures
        match r {
            Some(s) => trimmed_field(*v, key@) == Some(s@),
            None => trimmed_field(*v, key@) is None,
        },
{
    trimmed_string(v.get(key))
}

} // verus!

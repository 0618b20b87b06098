//! A model of the JSON values that appear on the wire.
//!
//! The transport delivers JSON text; the surrounding process parses it into
//! this tree shape before handing it to the library, and turns the library's
//! replies back into text.  Every number on the wire is an integer, so the
//! model carries signed and unsigned integers and no floating point.

use vstd::prelude::*;

verus! {

/// A JSON value as the protocol uses it.
#[derive(Debug, PartialEq, Eq)]
pub enum Json {
    Null,
    Bool(bool),
    Int(i64),
    UInt(u64),
    Str(String),
    Arr(Vec<Json>),
    Obj(Vec<(String, Json)>),
}

/// The value bound to `key` in an object's entry list: the first entry whose
/// key matches, as JSON parsers conventionally resolve duplicate keys.
pub open spec fn lookup(entries: Seq<(String, Json)>, key: Seq<char>) -> Option<Json>
    decreases entries.len(),
{
    if entries.len() == 0 {
        None
    } else if entries[0].0@ == key {
        Some(entries[0].1)
    } else {
        lookup(entries.subrange(1, entries.len() as int), key)
    }
}

impl Json {
    /// The signed integer a JSON value denotes, if it denotes one.
    pub open spec fn spec_as_i64(self) -> Option<i64> {
        match self {
            Json::Int(i) => Some(i),
            Json::UInt(u) => if u <= i64::MAX as u64 {
                Some(u as i64)
            } else {
                None
            },
            _ => None,
        }
    }

    /// The unsigned integer a JSON value denotes, if it denotes one.
    pub open spec fn spec_as_u64(self) -> Option<u64> {
        match self {
            Json::Int(i) => if i >= 0 {
                Some(i as u64)
            } else {
                None
            },
            Json::UInt(u) => Some(u),
            _ => None,
        }
    }

    /// The signed integer this value denotes, if any.
    pub fn as_i64(&self) -> (r: Option<i64>)
        ensures
            r == self.spec_as_i64(),
    {
        match self {
            Json::Int(i) => Some(*i),
            Json::UInt(u) => if *u <= 0x7fff_ffff_ffff_ffffu64 {
                Some(*u as i64)
            } else {
                None
            },
            _ => None,
        }
    }

    /// The unsigned integer this value denotes, if any.
    pub fn as_u64(&self) -> (r: Option<u64>)
        ensures
            r == self.spec_as_u64(),
    {
        match self {
            Json::Int(i) => if *i >= 0 {
                Some(*i as u64)
            } else {
                None
            },
            Json::UInt(u) => Some(*u),
            _ => None,
        }
    }
}

/// Looks `key` up in an object's entry list, first match first.
pub fn obj_get<'a>(entries: &'a Vec<(String, Json)>, key: &String) -> (r: Option<&'a Json>)
    ensures
        match r {
            Some(j) => lookup(entries@, key@) == Some(*j),
            None => lookup(entries@, key@) is None,
        },
{
    let n = entries.len();
    let mut i: usize = 0;
    proof {
        assert(entries@.subrange(0, n as int) =~= entries@);
    }
    while i < n
        invariant
            n == entries@.len(),
            i <= n,
            lookup(entries@, key@) == lookup(entries@.subrange(i as int, n as int), key@),
        decreases n - i,
    {
        proof {
            assert(entries@.subrange(i as int, n as int)[0] == entries@[i as int]);
        }
        if entries[i].0 == *key {
            return Some(&entries[i].1);
        }
        proof {
            assert(entries@.subrange(i as int, n as int).subrange(
                1,
                entries@.subrange(i as int, n as int).len() as int,
            ) =~= entries@.subrange(i + 1, n as int));
        }
        i = i + 1;
    }
    None
}

} // verus!

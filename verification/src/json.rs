//! A generic JSON-like document model.
//!
//! The place normalizer consumes one already-parsed search payload per
//! query. The payload arrives here as a `JsonValue`, the crate's own shape
//! for such documents: numbers are exact decimals, objects keep their
//! fields in order. The boundary code converts the wire-format value into
//! this model before calling into the core.

use vstd::prelude::*;
use crate::decimal::FixedDecimal;

verus! {

/// A generic JSON document.
#[derive(Debug, PartialEq)]
pub enum JsonValue {
    Null,
    Bool(bool),
    Int(i64),
    Num(FixedDecimal),
    Str(String),
    Arr(Vec<JsonValue>),
    Obj(Vec<(String, JsonValue)>),
}

/// First field of `fields` named `key`, searched front to back.
pub open spec fn obj_lookup(fields: Seq<(String, JsonValue)>, key: Seq<char>) -> Option<
    JsonValue,
>
    decreases fields.len(),
{
    if fields.len() == 0 {
        None
    } else if fields[0].0@ == key {
        Some(fields[0].1)
    } else {
        obj_lookup(fields.drop_first(), key)
    }
}

/// Compares two string slices character by character.
pub fn str_eq(a: &str, b: &str) -> (r: bool)
    ensures
        r == (a@ == b@),
{
    let a_len = a.unicode_len();
    let b_len = b.unicode_len();
    if a_len != b_len {
        return false;
    }
    let mut i: usize = 0;
    while i < a_len
        invariant
            a_len == a@.len(),
            b_len == b@.len(),
            a_len == b_len,
            0 <= i <= a_len,
            forall|j: int| 0 <= j < i ==> a@[j] == b@[j],
        decreases a_len - i,
    {
        if a.get_char(i) != b.get_char(i) {
            return false;
        }
        i = i + 1;
    }
    proof {
        assert(a@ =~= b@);
    }
    true
}

impl JsonValue {
    /// The value of the field named `key`, when this is an object that has
    /// one.
    pub open spec fn spec_get(self, key: Seq<char>) -> Option<JsonValue> {
        match self {
            JsonValue::Obj(fields) => obj_lookup(fields@, key),
            _ => None,
        }
    }

    /// Field access on an object; `None` on a missing field or any other
    /// kind of value.
    pub fn get<'a>(&'a self, key: &str) -> (r: Option<&'a JsonValue>)
        ensures
            match r {
                Some(v) => self.spec_get(key@) == Some(*v),
                None => self.spec_get(key@) is None,
            },
    {
        match self {
            JsonValue::Obj(fields) => {
                let n = fields.len();
                let mut i: usize = 0;
                proof {
                    assert(fields@.skip(0) =~= fields@);
                }
                while i < n
                    invariant
                        n == fields@.len(),
                        0 <= i <= n,
                        self.spec_get(key@) == obj_lookup(fields@.skip(i as int), key@),
                    decreases n - i,
                {
                    let pair = &fields[i];
                    proof {
                        assert(fields@.skip(i as int).len() > 0);
                        assert(fields@.skip(i as int)[0] == fields@[i as int]);
                        assert(fields@.skip(i as int).drop_first() =~= fields@.skip(i as int + 1));
                    }
                    if str_eq(pair.0.as_str(), key) {
                        proof {
                            assert(obj_lookup(fields@.skip(i as int), key@) == Some(
                                fields@[i as int].1,
                            ));
                        }
                        return Some(&pair.1);
                    }
                    i = i + 1;
                }
                proof {
                    assert(fields@.skip(n as int) =~= Seq::<(String, JsonValue)>::empty());
                }
                None
            },
            _ => None,
        }
    }

    /// The elements, when this is an array.
    pub open spec fn spec_as_array(self) -> Option<Seq<JsonValue>> {
        match self {
            JsonValue::Arr(items) => Some(items@),
            _ => None,
        }
    }

    pub fn as_array<'a>(&'a self) -> (r: Option<&'a Vec<JsonValue>>)
        ensures
            match r {
                Some(items) => self.spec_as_array() == Some(items@),
                None => self.spec_as_array() is None,
            },
    {
        match self {
            JsonValue::Arr(items) => Some(items),
            _ => None,
        }
    }

    /// The text, when this is a string.
    pub open spec fn spec_as_str(self) -> Option<Seq<char>> {
        match self {
            JsonValue::Str(s) => Some(s@),
            _ => None,
        }
    }

    pub fn as_str<'a>(&'a self) -> (r: Option<&'a String>)
        ensures
            match r {
                Some(s) => self.spec_as_str() == Some(s@),
                None => self.spec_as_str() is None,
            },
    {
        match self {
            JsonValue::Str(s) => Some(s),
            _ => None,
        }
    }

    /// The value as a whole number, when this is an integer.
    pub open spec fn spec_as_int(self) -> Option<int> {
        match self {
            JsonValue::Int(i) => Some(i as int),
            _ => None,
        }
    }

    pub fn as_int(&self) -> (r: Option<i64>)
        ensures
            match r {
                Some(i) => self.spec_as_int() == Some(i as int),
                None => self.spec_as_int() is None,
            },
    {
        match self {
            JsonValue::Int(i) => Some(*i),
            _ => None,
        }
    }

    /// The value as an exact decimal: a decimal literal as itself, an
    /// integer literal widened to scale zero.
    pub open spec fn spec_as_number(self) -> Option<FixedDecimal> {
        match self {
            JsonValue::Int(i) => Some(FixedDecimal { mantissa: i, scale: 0 }),
            JsonValue::Num(d) => Some(d),
            _ => None,
        }
    }

    pub fn as_number(&self) -> (r: Option<FixedDecimal>)
        ensures
            r == self.spec_as_number(),
    {
        match self {
            JsonValue::Int(i) => Some(FixedDecimal { mantissa: *i, scale: 0 }),
            JsonValue::Num(d) => Some(*d),
            _ => None,
        }
    }
}

} // verus!

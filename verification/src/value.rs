//! A JSON-like value tree, the currency of tool arguments and contexts.
//!
//! Callers hand the server loosely-typed argument bags; this type holds
//! exactly the shapes the dispatch layer reads: null, booleans, 64-bit
//! integers, text, arrays and objects.  Numbers outside the signed 64-bit
//! integer range (in particular non-integral numbers) are carried as
//! `Other`: no tool parameter reads them, so they only need to exist.

use vstd::prelude::*;
use vstd::string::StrSliceExecFns;

verus! {

/// An untrusted JSON-like value, as delivered by a caller.
pub enum Value {
    Null,
    Bool(bool),
    Int(i64),
    Text(String),
    Arr(Vec<Value>),
    Obj(Vec<(String, Value)>),
    /// A value of a kind no tool parameter reads (e.g. a non-integral number).
    Other,
}

/// The first entry of `entries` whose key reads as `key`, if any.
///
/// Objects are kept as entry lists; the first match wins, so an entry
/// shadows any later entry with the same key.
pub open spec fn spec_lookup(entries: Seq<(String, Value)>, key: Seq<char>) -> Option<Value>
    decreases entries.len(),
{
    if entries.len() == 0 {
        None
    } else if entries[0].0@ == key {
        Some(entries[0].1)
    } else {
        spec_lookup(entries.drop_first(), key)
    }
}

/// Looking a key up in an object, `None` on every other kind of value.
pub open spec fn spec_get(v: Value, key: Seq<char>) -> Option<Value> {
    match v {
        Value::Obj(entries) => spec_lookup(entries@, key),
        _ => None,
    }
}

/// The text under `key`, provided the value there is text.
///
/// A key that is absent, or present with a non-text value, yields `None`:
/// the resolution layer treats both alike.
pub open spec fn source_text(v: Value, key: Seq<char>) -> Option<Seq<char>> {
    match spec_get(v, key) {
        Some(Value::Text(s)) => Some(s@),
        _ => None,
    }
}

/// The non-negative integer under `key`, if the value there is one.
pub open spec fn source_uint(v: Value, key: Seq<char>) -> Option<int> {
    match spec_get(v, key) {
        Some(Value::Int(n)) => if n >= 0 {
            Some(n as int)
        } else {
            None
        },
        _ => None,
    }
}

proof fn lemma_lookup_skip(entries: Seq<(String, Value)>, key: Seq<char>, i: int)
    requires
        0 <= i <= entries.len(),
        forall|j: int| 0 <= j < i ==> entries[j].0@ != key,
    ensures
        spec_lookup(entries, key) == spec_lookup(entries.skip(i), key),
    decreases i,
{
    if i == 0 {
        assert(entries.skip(0) =~= entries);
    } else {
        assert(entries.drop_first().skip(i - 1) =~= entries.skip(i));
        lemma_lookup_skip(entries.drop_first(), key, i - 1);
    }
}

/// Character-for-character string comparison, proved against the views.
pub fn str_eq(a: &str, b: &str) -> (r: bool)
    ensures
        r == (a@ == b@),
{
    let a_len = a.unicode_len();
    let b_len = b.unicode_len();
    if a_len != b_len {
        return false;
    }
    let mut i: usize = 0;
    while i < a_len
        invariant
            i <= a_len,
            a_len == a@.len(),
            a_len == b@.len(),
            forall|j: int| 0 <= j < i ==> a@[j] == b@[j],
        decreases a_len - i,
    {
        if a.get_char(i) != b.get_char(i) {
            return false;
        }
        i = i + 1;
    }
    proof {
        assert(a@ =~= b@);
    }
    true
}

impl Value {
    /// The borrowed text of a text value, `None` for every other kind.
    pub fn as_str(&self) -> (r: Option<&str>)
        ensures
            match r {
                Some(s) => self matches Value::Text(t) && s@ == t@,
                None => !(*self matches Value::Text(_)),
            },
    {
        match self {
            Value::Text(s) => Some(s.as_str()),
            _ => None,
        }
    }

    /// The value as a non-negative 64-bit integer, `None` for every other kind.
    pub fn as_u64(&self) -> (r: Option<u64>)
        ensures
            match r {
                Some(n) => self matches Value::Int(m) && m >= 0 && n == m as u64,
                None => !(self matches Value::Int(m) && m >= 0),
            },
    {
        match self {
            Value::Int(n) => if *n >= 0 {
                Some(*n as u64)
            } else {
                None
            },
            _ => None,
        }
    }

    /// The elements of an array value, `None` for every other kind.
    pub fn as_array(&self) -> (r: Option<&Vec<Value>>)
        ensures
            match r {
                Some(items) => *self matches Value::Arr(a) && items == &a,
                None => !(*self matches Value::Arr(_)),
            },
    {
        match self {
            Value::Arr(items) => Some(items),
            _ => None,
        }
    }

    /// The first entry under `key` of an object value.
    pub fn get<'a>(&'a self, key: &str) -> (r: Option<&'a Value>)
        ensures
            match r {
                Some(found) => spec_get(*self, key@) == Some(*found),
                None => spec_get(*self, key@) is None,
            },
    {
        match self {
            Value::Obj(entries) => {
                let n = entries.len();
                let mut i: usize = 0;
                while i < n
                    invariant
                        i <= n,
                        n == entries@.len(),
                        *self == Value::Obj(*entries),
                        forall|j: int| 0 <= j < i ==> entries@[j].0@ != key@,
                    decreases n - i,
                {
                    if str_eq(entries[i].0.as_str(), key) {
                        proof {
                            lemma_lookup_skip(entries@, key@, i as int);
                            assert(entries@.skip(i as int)[0] == entries@[i as int]);
                            assert(spec_lookup(entries@.skip(i as int), key@)
                                == Some(entries@[i as int].1));
                        }
                        return Some(&entries[i].1);
                    }
                    i = i + 1;
                }
                proof {
                    lemma_lookup_skip(entries@, key@, n as int);
                    assert(entries@.skip(n as int) =~= Seq::<(String, Value)>::empty());
                }
                None
            },
            _ => None,
        }
    }

    /// The text under `key`, when the entry there is text.
    pub fn get_text(&self, key: &str) -> (r: Option<&String>)
        ensures
            match r {
                Some(s) => source_text(*self, key@) == Some(s@),
                None => source_text(*self, key@) is None,
            },
    {
        match self.get(key) {
            Some(Value::Text(s)) => Some(s),
            _ => None,
        }
    }
}

} // verus!

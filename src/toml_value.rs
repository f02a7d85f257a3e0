//! A plain-value model of a TOML document.
use vstd::prelude::*;
use crate::text::str_eq;

verus! {

/// One TOML value. Tables keep their entries in document order; a float
/// is held by its IEEE-754 bit pattern and a date-time by its text.
#[derive(Debug, PartialEq, Eq)]
pub enum TomlValue {
    Str(String),
    Int(i64),
    Float(u64),
    Bool(bool),
    Datetime(String),
    Array(Vec<TomlValue>),
    Table(Vec<(String, TomlValue)>),
}

/// The value of the first entry of `entries` whose key is `key`.
pub open spec fn lookup(entries: Seq<(String, TomlValue)>, key: Seq<char>) -> Option<TomlValue>
    decreases entries.len(),
{
    if entries.len() == 0 {
        None
    } else if entries[0].0@ == key {
        Some(entries[0].1)
    } else {
        lookup(entries.drop_first(), key)
    }
}

impl TomlValue {
    /// The value stored under `key` when `self` is a table.
    pub open spec fn field(self, key: Seq<char>) -> Option<TomlValue> {
        match self {
            TomlValue::Table(t) => lookup(t@, key),
            _ => None,
        }
    }

    /// Whether `self` is a string whose characters are `s`.
    pub open spec fn is_str(self, s: Seq<char>) -> bool {
        match self {
            TomlValue::Str(x) => x@ == s,
            _ => false,
        }
    }

    /// Looks up `key` in a table; `None` for a missing key or a non-table.
    pub fn get(&self, key: &str) -> (r: Option<&TomlValue>)
        ensures
            match r {
                Some(v) => self.field(key@) == Some(*v),
                None => self.field(key@) is None,
            },
    {
        match self {
            TomlValue::Table(t) => {
                let mut i: usize = 0;
                assert(t@.subrange(0, t@.len() as int) =~= t@);
                while i < t.len()
                    invariant
                        0 <= i <= t@.len(),
                        self.field(key@) == lookup(t@, key@),
                        lookup(t@, key@) == lookup(t@.subrange(i as int, t@.len() as int), key@),
                    decreases t@.len() - i,
                {
                    proof {
                        assert(t@.subrange(i as int, t@.len() as int).drop_first()
                            =~= t@.subrange(i + 1, t@.len() as int));
                    }
                    let entry = &t[i];
                    if str_eq(entry.0.as_str(), key) {
                        assert(t@.subrange(i as int, t@.len() as int)[0] == t@[i as int]);
                        return Some(&entry.1);
                    }
                    i = i + 1;
                }
                assert(t@.subrange(i as int, t@.len() as int).len() == 0);
                None
            },
            _ => None,
        }
    }

    /// The characters of a string value.
    pub fn as_str(&self) -> (r: Option<&str>)
        ensures
            match r {
                Some(s) => self matches TomlValue::Str(x) && x@ == s@,
                None => !(self is Str),
            },
    {
        match self {
            TomlValue::Str(s) => Some(s.as_str()),
            _ => None,
        }
    }
}

} // verus!

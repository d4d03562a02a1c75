//! A JSON document as plain values: what the decoders of daemon and client
//! output read. Numbers, arrays and objects keep their compact JSON text.
//! A number also carries its reading as a duration in milliseconds (a value
//! below one taken as seconds, any other as milliseconds, rounded, and
//! nothing where that is negative or does not fit in `u64`); that reading
//! goes through floating point and is made where the document is parsed.
use vstd::prelude::*;

use crate::text::{chars_eq_str, chars_of};

verus! {

#[derive(Debug, PartialEq, Eq)]
pub enum JsonValue {
    Null,
    Bool(bool),
    Number { text: String, millis: Option<u64> },
    String(String),
    Array { items: Vec<JsonValue>, rendered: String },
    Object { entries: Vec<(String, JsonValue)>, rendered: String },
}

impl JsonValue {
    /// The value stored under `key` in an object, the first one where a key
    /// repeats; nothing for other values.
    pub open spec fn get_spec(&self, key: Seq<char>) -> Option<JsonValue> {
        match self {
            JsonValue::Object { entries, .. } => entry_for(entries@, key),
            _ => None,
        }
    }

    pub fn get(&self, key: &str) -> (r: Option<&JsonValue>)
        ensures
            match self.get_spec(key@) {
                Some(v) => r == Some(&v),
                None => r.is_none(),
            },
    {
        match self {
            JsonValue::Object { entries, .. } => {
                let k = chars_of(key);
                let mut i: usize = 0;
                proof {
                    assert(entries@.skip(0) =~= entries@);
                }
                while i < entries.len()
                    invariant
                        i <= entries@.len(),
                        self.get_spec(key@) == entry_for(entries@, key@),
                        k@ == key@,
                        entry_for(entries@, key@) == entry_for(entries@.skip(i as int), key@),
                    decreases entries.len() - i,
                {
                    proof {
                        assert(entries@.skip(i as int)[0] == entries@[i as int]);
                        assert(entries@.skip(i as int).drop_first() =~= entries@.skip(i + 1));
                    }
                    let name = chars_of(entries[i].0.as_str());
                    if crate::text::chars_eq(&name, &k) {
                        return Some(&entries[i].1);
                    }
                    i = i + 1;
                }
                None
            },
            _ => None,
        }
    }

    pub open spec fn is_null_spec(&self) -> bool {
        self matches JsonValue::Null
    }
}

/// The value of the first entry named `key`.
pub open spec fn entry_for(entries: Seq<(String, JsonValue)>, key: Seq<char>) -> Option<JsonValue>
    decreases entries.len(),
{
    if entries.len() == 0 {
        None
    } else if entries[0].0@ == key {
        Some(entries[0].1)
    } else {
        entry_for(entries.drop_first(), key)
    }
}

} // verus!

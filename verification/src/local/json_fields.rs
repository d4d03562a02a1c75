//! Reading loosely shaped JSON reports: a field is found under any of
//! several names, also where the report spells the name with other case or
//! punctuation, and scalars are read leniently.
use vstd::prelude::*;

use crate::civil::{parse_timestamp, parse_timestamp_spec};
use crate::detail::prefix_bytes_spec;
use crate::domain::opt_view;
use crate::local::client::views;
use crate::local::process::hex_digit;
use crate::json::{entry_for, JsonValue};
use crate::numbers::{
    all_digits, byte_len, digits_value, exceeds_bytes, parse_unsigned, parse_unsigned_spec,
    prefix_fitting, unsigned_body,
};
use crate::text::{
    chars_eq, chars_eq_str, chars_of, is_alnum, is_ascii_alphanumeric, is_ascii_digit, is_digit,
    lower_char, lower_seq, lowercase, slice_chars, string_from_chars, to_lower_char, append_str,
};

verus! {

pub open spec fn names_view(names: Seq<&str>) -> Seq<Seq<char>> {
    names.map_values(|n: &str| n@)
}

/// A name with everything but ASCII letters and digits dropped, lower-cased.
pub open spec fn normalize_spec(s: Seq<char>) -> Seq<char>
    decreases s.len(),
{
    if s.len() == 0 {
        Seq::empty()
    } else {
        let r = normalize_spec(s.drop_last());
        if is_alnum(s.last()) {
            r.push(lower_char(s.last()))
        } else {
            r
        }
    }
}

pub fn normalize(s: &str) -> (r: Vec<char>)
    ensures
        r@ == normalize_spec(s@),
{
    let c = chars_of(s);
    let mut out: Vec<char> = Vec::new();
    let mut i: usize = 0;
    proof {
        assert(c@.take(0) =~= Seq::<char>::empty());
    }
    while i < c.len()
        invariant
            i <= c@.len(),
            c@ == s@,
            out@ == normalize_spec(c@.take(i as int)),
        decreases c.len() - i,
    {
        proof {
            assert(c@.take(i + 1).drop_last() =~= c@.take(i as int));
            assert(c@.take(i + 1).last() == c@[i as int]);
        }
        let ch = c[i];
        if is_ascii_alphanumeric(ch) {
            out.push(to_lower_char(ch));
        }
        i = i + 1;
    }
    proof {
        assert(c@.take(c@.len() as int) =~= c@);
    }
    out
}

/// The value of the first entry whose name normalizes to `key`.
pub open spec fn entry_normalized(entries: Seq<(String, JsonValue)>, key: Seq<char>) -> Option<
    JsonValue,
>
    decreases entries.len(),
{
    if entries.len() == 0 {
        None
    } else if normalize_spec(entries[0].0@) == key {
        Some(entries[0].1)
    } else {
        entry_normalized(entries.drop_first(), key)
    }
}

/// The value stored under `name`, or else under the first name that reads
/// the same once normalized.
pub open spec fn field_spec(entries: Seq<(String, JsonValue)>, name: Seq<char>) -> Option<JsonValue> {
    match entry_for(entries, name) {
        Some(v) => Some(v),
        None => entry_normalized(entries, normalize_spec(name)),
    }
}

pub open spec fn field_any(entries: Seq<(String, JsonValue)>, names: Seq<Seq<char>>) -> Option<
    JsonValue,
>
    decreases names.len(),
{
    if names.len() == 0 {
        None
    } else {
        match field_spec(entries, names[0]) {
            Some(v) => Some(v),
            None => field_any(entries, names.drop_first()),
        }
    }
}

/// The value under the first of `names` that `v`, an object, has; nothing
/// where `v` is not an object.
pub open spec fn lookup(v: JsonValue, names: Seq<Seq<char>>) -> Option<JsonValue> {
    match v {
        JsonValue::Object { entries, .. } => field_any(entries@, names),
        _ => None,
    }
}

fn find_normalized<'a>(entries: &'a Vec<(String, JsonValue)>, key: &Vec<char>) -> (r: Option<
    &'a JsonValue,
>)
    ensures
        match entry_normalized(entries@, key@) {
            Some(x) => r == Some(&x),
            None => r is None,
        },
{
    let mut i: usize = 0;
    proof {
        assert(entries@.skip(0) =~= entries@);
    }
    while i < entries.len()
        invariant
            i <= entries@.len(),
            entry_normalized(entries@, key@) == entry_normalized(entries@.skip(i as int), key@),
        decreases entries.len() - i,
    {
        proof {
            assert(entries@.skip(i as int)[0] == entries@[i as int]);
            assert(entries@.skip(i as int).drop_first() =~= entries@.skip(i + 1));
        }
        let name = normalize(entries[i].0.as_str());
        if chars_eq(&name, key) {
            return Some(&entries[i].1);
        }
        i = i + 1;
    }
    None
}

/// The value under the first of `names` that `v` has (see `lookup`).
pub fn lookup_field<'a>(v: &'a JsonValue, names: &[&str]) -> (r: Option<&'a JsonValue>)
    ensures
        match lookup(*v, names_view(names@)) {
            Some(x) => r == Some(&x),
            None => r is None,
        },
{
    match v {
        JsonValue::Object { entries, .. } => {
            let ghost all = names_view(names@);
            let mut i: usize = 0;
            proof {
                assert(all.skip(0) =~= all);
            }
            while i < names.len()
                invariant
                    i <= names@.len(),
                    all == names_view(names@),
                    *v matches JsonValue::Object { entries: e, .. } && e == *entries,
                    field_any(entries@, all) == field_any(entries@, all.skip(i as int)),
                decreases names.len() - i,
            {
                proof {
                    assert(all.skip(i as int)[0] == names@[i as int]@);
                    assert(all.skip(i as int).drop_first() =~= all.skip(i + 1));
                }
                match v.get(names[i]) {
                    Some(x) => {
                        return Some(x);
                    },
                    None => {},
                }
                let key = normalize(names[i]);
                match find_normalized(entries, &key) {
                    Some(x) => {
                        return Some(x);
                    },
                    None => {},
                }
                i = i + 1;
            }
            None
        },
        _ => None,
    }
}

/// A scalar read as text: a string as it is, a number as written, a boolean
/// as `true` or `false`.
pub open spec fn value_string_spec(v: JsonValue) -> Option<Seq<char>> {
    match v {
        JsonValue::String(s) => Some(s@),
        JsonValue::Number { text, .. } => Some(text@),
        JsonValue::Bool(b) => Some(if b { "true"@ } else { "false"@ }),
        _ => None,
    }
}

pub fn value_string(v: &JsonValue) -> (r: Option<String>)
    ensures
        opt_view(r) == value_string_spec(*v),
{
    match v {
        JsonValue::String(s) => Some(s.clone()),
        JsonValue::Number { text, .. } => Some(text.clone()),
        JsonValue::Bool(b) => Some(if *b { "true".to_owned() } else { "false".to_owned() }),
        _ => None,
    }
}

/// A boolean, or a string that says one: `true`, `yes`, `1` and `false`,
/// `no`, `0`, in any case.
pub open spec fn value_bool_spec(v: JsonValue) -> Option<bool> {
    match v {
        JsonValue::Bool(b) => Some(b),
        JsonValue::String(s) => {
            let l = lower_seq(s@);
            if l == "true"@ || l == "yes"@ || l == "1"@ {
                Some(true)
            } else if l == "false"@ || l == "no"@ || l == "0"@ {
                Some(false)
            } else {
                None
            }
        },
        _ => None,
    }
}

pub fn value_bool(v: &JsonValue) -> (r: Option<bool>)
    ensures
        r == value_bool_spec(*v),
{
    match v {
        JsonValue::Bool(b) => Some(*b),
        JsonValue::String(s) => {
            let l = lowercase(&chars_of(s.as_str()));
            if chars_eq_str(&l, "true") || chars_eq_str(&l, "yes") || chars_eq_str(&l, "1") {
                Some(true)
            } else if chars_eq_str(&l, "false") || chars_eq_str(&l, "no") || chars_eq_str(&l, "0") {
                Some(false)
            } else {
                None
            }
        },
        _ => None,
    }
}

/// A number read as an unsigned integer: the digits of a non-negative
/// integer that fits in `u64`.
pub open spec fn number_u64(text: Seq<char>) -> Option<u64> {
    if text.len() > 0 && all_digits(text) && digits_value(text) <= u64::MAX {
        Some(digits_value(text) as u64)
    } else {
        None
    }
}

/// An unsigned integer: a number that is one, or a string that `u64::from_str`
/// reads.
pub open spec fn value_u64_spec(v: JsonValue) -> Option<u64> {
    match v {
        JsonValue::Number { text, .. } => number_u64(text@),
        JsonValue::String(s) => match parse_unsigned_spec(s@, u64::MAX as nat) {
            Some(n) => Some(n as u64),
            None => None,
        },
        _ => None,
    }
}

pub fn value_u64(v: &JsonValue) -> (r: Option<u64>)
    ensures
        r == value_u64_spec(*v),
{
    match v {
        JsonValue::Number { text, .. } => {
            let c = chars_of(text.as_str());
            if c.len() == 0 || !is_ascii_digit(c[0]) {
                proof {
                    if c@.len() > 0 {
                        assert(!is_digit(text@[0]));
                    }
                }
                return None;
            }
            proof {
                assert(unsigned_body(c@) == c@);
            }
            match parse_unsigned(&c, u64::MAX) {
                Some(n) => Some(n),
                None => None,
            }
        },
        JsonValue::String(s) => {
            let c = chars_of(s.as_str());
            parse_unsigned(&c, u64::MAX)
        },
        _ => None,
    }
}

/// A duration in milliseconds: an unsigned integer as it is, else a number's
/// reading as a duration.
pub open spec fn latency_spec(v: JsonValue) -> Option<u64> {
    match value_u64_spec(v) {
        Some(n) => Some(n),
        None => match v {
            JsonValue::Number { millis, .. } => millis,
            _ => None,
        },
    }
}

pub fn latency_of(v: &JsonValue) -> (r: Option<u64>)
    ensures
        r == latency_spec(*v),
{
    match value_u64(v) {
        Some(n) => Some(n),
        None => match v {
            JsonValue::Number { millis, .. } => *millis,
            _ => None,
        },
    }
}

/// The text under the first of `names` (each looked up on its own) that
/// holds a scalar.
pub open spec fn first_string_spec(v: JsonValue, names: Seq<Seq<char>>) -> Option<Seq<char>>
    decreases names.len(),
{
    if names.len() == 0 {
        None
    } else {
        match lookup(v, seq![names[0]]) {
            Some(x) => match value_string_spec(x) {
                Some(t) => Some(t),
                None => first_string_spec(v, names.drop_first()),
            },
            None => first_string_spec(v, names.drop_first()),
        }
    }
}

pub open spec fn first_bool_spec(v: JsonValue, names: Seq<Seq<char>>) -> Option<bool>
    decreases names.len(),
{
    if names.len() == 0 {
        None
    } else {
        match lookup(v, seq![names[0]]) {
            Some(x) => match value_bool_spec(x) {
                Some(t) => Some(t),
                None => first_bool_spec(v, names.drop_first()),
            },
            None => first_bool_spec(v, names.drop_first()),
        }
    }
}

pub open spec fn first_u64_spec(v: JsonValue, names: Seq<Seq<char>>) -> Option<u64>
    decreases names.len(),
{
    if names.len() == 0 {
        None
    } else {
        match lookup(v, seq![names[0]]) {
            Some(x) => match value_u64_spec(x) {
                Some(t) => Some(t),
                None => first_u64_spec(v, names.drop_first()),
            },
            None => first_u64_spec(v, names.drop_first()),
        }
    }
}

pub open spec fn first_latency_spec(v: JsonValue, names: Seq<Seq<char>>) -> Option<u64>
    decreases names.len(),
{
    if names.len() == 0 {
        None
    } else {
        match lookup(v, seq![names[0]]) {
            Some(x) => match latency_spec(x) {
                Some(t) => Some(t),
                None => first_latency_spec(v, names.drop_first()),
            },
            None => first_latency_spec(v, names.drop_first()),
        }
    }
}

fn lookup_one<'a>(v: &'a JsonValue, name: &str) -> (r: Option<&'a JsonValue>)
    ensures
        match lookup(*v, seq![name@]) {
            Some(x) => r == Some(&x),
            None => r is None,
        },
{
    let names = [name];
    proof {
        assert(names_view(names@) =~= seq![name@]);
    }
    lookup_field(v, &names)
}

pub fn first_string(v: &JsonValue, names: &[&str]) -> (r: Option<String>)
    ensures
        opt_view(r) == first_string_spec(*v, names_view(names@)),
{
    let ghost all = names_view(names@);
    let mut i: usize = 0;
    proof {
        assert(all.skip(0) =~= all);
    }
    while i < names.len()
        invariant
            i <= names@.len(),
            all == names_view(names@),
            first_string_spec(*v, all) == first_string_spec(*v, all.skip(i as int)),
        decreases names.len() - i,
    {
        proof {
            assert(all.skip(i as int)[0] == names@[i as int]@);
            assert(all.skip(i as int).drop_first() =~= all.skip(i + 1));
        }
        match lookup_one(v, names[i]) {
            Some(x) => match value_string(x) {
                Some(t) => {
                    return Some(t);
                },
                None => {},
            },
            None => {},
        }
        i = i + 1;
    }
    None
}

pub fn first_bool(v: &JsonValue, names: &[&str]) -> (r: Option<bool>)
    ensures
        r == first_bool_spec(*v, names_view(names@)),
{
    let ghost all = names_view(names@);
    let mut i: usize = 0;
    proof {
        assert(all.skip(0) =~= all);
    }
    while i < names.len()
        invariant
            i <= names@.len(),
            all == names_view(names@),
            first_bool_spec(*v, all) == first_bool_spec(*v, all.skip(i as int)),
        decreases names.len() - i,
    {
        proof {
            assert(all.skip(i as int)[0] == names@[i as int]@);
            assert(all.skip(i as int).drop_first() =~= all.skip(i + 1));
        }
        match lookup_one(v, names[i]) {
            Some(x) => match value_bool(x) {
                Some(t) => {
                    return Some(t);
                },
                None => {},
            },
            None => {},
        }
        i = i + 1;
    }
    None
}

pub fn first_u64(v: &JsonValue, names: &[&str]) -> (r: Option<u64>)
    ensures
        r == first_u64_spec(*v, names_view(names@)),
{
    let ghost all = names_view(names@);
    let mut i: usize = 0;
    proof {
        assert(all.skip(0) =~= all);
    }
    while i < names.len()
        invariant
            i <= names@.len(),
            all == names_view(names@),
            first_u64_spec(*v, all) == first_u64_spec(*v, all.skip(i as int)),
        decreases names.len() - i,
    {
        proof {
            assert(all.skip(i as int)[0] == names@[i as int]@);
            assert(all.skip(i as int).drop_first() =~= all.skip(i + 1));
        }
        match lookup_one(v, names[i]) {
            Some(x) => match value_u64(x) {
                Some(t) => {
                    return Some(t);
                },
                None => {},
            },
            None => {},
        }
        i = i + 1;
    }
    None
}

pub fn first_latency(v: &JsonValue, names: &[&str]) -> (r: Option<u64>)
    ensures
        r == first_latency_spec(*v, names_view(names@)),
{
    let ghost all = names_view(names@);
    let mut i: usize = 0;
    proof {
        assert(all.skip(0) =~= all);
    }
    while i < names.len()
        invariant
            i <= names@.len(),
            all == names_view(names@),
            first_latency_spec(*v, all) == first_latency_spec(*v, all.skip(i as int)),
        decreases names.len() - i,
    {
        proof {
            assert(all.skip(i as int)[0] == names@[i as int]@);
            assert(all.skip(i as int).drop_first() =~= all.skip(i + 1));
        }
        match lookup_one(v, names[i]) {
            Some(x) => match latency_of(x) {
                Some(t) => {
                    return Some(t);
                },
                None => {},
            },
            None => {},
        }
        i = i + 1;
    }
    None
}

pub open spec fn opt_ref(v: Option<&JsonValue>) -> Option<JsonValue> {
    match v {
        Some(x) => Some(*x),
        None => None,
    }
}

/// The scalars of an array read as text, in order, skipping the others.
pub open spec fn strings_of(items: Seq<JsonValue>) -> Seq<Seq<char>>
    decreases items.len(),
{
    if items.len() == 0 {
        Seq::empty()
    } else {
        let r = strings_of(items.drop_last());
        match value_string_spec(items.last()) {
            Some(t) => r.push(t),
            None => r,
        }
    }
}

/// A list of strings: the scalars of an array, or a single non-empty string.
pub open spec fn parse_strings_spec(v: Option<JsonValue>) -> Seq<Seq<char>> {
    match v {
        Some(JsonValue::Array { items, .. }) => strings_of(items@),
        Some(JsonValue::String(s)) => if s@.len() > 0 {
            seq![s@]
        } else {
            Seq::empty()
        },
        _ => Seq::empty(),
    }
}

pub fn parse_strings(v: Option<&JsonValue>) -> (r: Vec<String>)
    ensures
        views(r@) == parse_strings_spec(opt_ref(v)),
{
    let mut out: Vec<String> = Vec::new();
    match v {
        Some(JsonValue::Array { items, .. }) => {
            let mut i: usize = 0;
            proof {
                assert(items@.take(0) =~= Seq::<JsonValue>::empty());
                assert(views(out@) =~= Seq::<Seq<char>>::empty());
            }
            while i < items.len()
                invariant
                    i <= items@.len(),
                    views(out@) == strings_of(items@.take(i as int)),
                decreases items.len() - i,
            {
                proof {
                    assert(items@.take(i + 1).drop_last() =~= items@.take(i as int));
                    assert(items@.take(i + 1).last() == items@[i as int]);
                }
                let ghost before = out@;
                match value_string(&items[i]) {
                    Some(t) => {
                        out.push(t);
                        proof {
                            assert(views(out@) =~= views(before).push(out@.last()@));
                        }
                    },
                    None => {},
                }
                i = i + 1;
            }
            proof {
                assert(items@.take(items@.len() as int) =~= items@);
            }
            out
        },
        Some(JsonValue::String(s)) => {
            if !s.as_str().is_empty() {
                out.push(s.clone());
                proof {
                    assert(views(out@) =~= seq![s@]);
                }
            } else {
                proof {
                    assert(views(out@) =~= Seq::<Seq<char>>::empty());
                }
            }
            out
        },
        _ => {
            proof {
                assert(views(out@) =~= Seq::<Seq<char>>::empty());
            }
            out
        },
    }
}

/// How `serde_json` writes one character inside a string.
pub open spec fn escape_char(c: char) -> Seq<char> {
    if c == '"' {
        seq!['\\', '"']
    } else if c == '\\' {
        seq!['\\', '\\']
    } else if c == '\u{8}' {
        seq!['\\', 'b']
    } else if c == '\t' {
        seq!['\\', 't']
    } else if c == '\n' {
        seq!['\\', 'n']
    } else if c == '\u{c}' {
        seq!['\\', 'f']
    } else if c == '\r' {
        seq!['\\', 'r']
    } else if (c as u32) < 0x20 {
        seq!['\\', 'u', '0', '0', hex_digit((c as u32 / 16) as nat), hex_digit((c as u32 % 16) as nat)]
    } else {
        seq![c]
    }
}

pub open spec fn escaped(s: Seq<char>) -> Seq<char>
    decreases s.len(),
{
    if s.len() == 0 {
        Seq::empty()
    } else {
        escaped(s.drop_last()) + escape_char(s.last())
    }
}

/// The compact JSON text of a value.
pub open spec fn json_text(v: JsonValue) -> Seq<char> {
    match v {
        JsonValue::Null => "null"@,
        JsonValue::Bool(b) => if b {
            "true"@
        } else {
            "false"@
        },
        JsonValue::Number { text, .. } => text@,
        JsonValue::String(s) => seq!['"'] + escaped(s@) + seq!['"'],
        JsonValue::Array { rendered, .. } => rendered@,
        JsonValue::Object { rendered, .. } => rendered@,
    }
}

fn hex_char(n: u32) -> (r: char)
    requires
        n < 16,
    ensures
        r == hex_digit(n as nat),
{
    if n < 10 {
        let b: u8 = n as u8 + 48;
        b as char
    } else {
        let b: u8 = n as u8 + 87;
        b as char
    }
}

fn push_escaped(out: &mut Vec<char>, c: char)
    ensures
        final(out)@ == old(out)@ + escape_char(c),
{
    let ghost before = out@;
    if c == '"' {
        out.push('\\');
        out.push('"');
    } else if c == '\\' {
        out.push('\\');
        out.push('\\');
    } else if c == '\u{8}' {
        out.push('\\');
        out.push('b');
    } else if c == '\t' {
        out.push('\\');
        out.push('t');
    } else if c == '\n' {
        out.push('\\');
        out.push('n');
    } else if c == '\u{c}' {
        out.push('\\');
        out.push('f');
    } else if c == '\r' {
        out.push('\\');
        out.push('r');
    } else if (c as u32) < 0x20 {
        out.push('\\');
        out.push('u');
        out.push('0');
        out.push('0');
        out.push(hex_char(c as u32 / 16));
        out.push(hex_char(c as u32 % 16));
    } else {
        out.push(c);
    }
    proof {
        assert(out@ =~= before + escape_char(c));
    }
}

pub fn json_text_of(v: &JsonValue) -> (r: Vec<char>)
    ensures
        r@ == json_text(*v),
{
    match v {
        JsonValue::Null => chars_of("null"),
        JsonValue::Bool(b) => if *b {
            chars_of("true")
        } else {
            chars_of("false")
        },
        JsonValue::Number { text, .. } => chars_of(text.as_str()),
        JsonValue::String(s) => {
            let c = chars_of(s.as_str());
            let mut out: Vec<char> = Vec::new();
            out.push('"');
            let mut i: usize = 0;
            proof {
                assert(c@.take(0) =~= Seq::<char>::empty());
                assert(out@ =~= seq!['"'] + escaped(c@.take(0)));
            }
            while i < c.len()
                invariant
                    i <= c@.len(),
                    c@ == s@,
                    out@ == seq!['"'] + escaped(c@.take(i as int)),
                decreases c.len() - i,
            {
                proof {
                    assert(c@.take(i + 1).drop_last() =~= c@.take(i as int));
                    assert(c@.take(i + 1).last() == c@[i as int]);
                }
                push_escaped(&mut out, c[i]);
                proof {
                    assert(out@ =~= seq!['"'] + escaped(c@.take(i + 1)));
                }
                i = i + 1;
            }
            out.push('"');
            proof {
                assert(c@.take(c@.len() as int) =~= c@);
            }
            out
        },
        JsonValue::Array { rendered, .. } => chars_of(rendered.as_str()),
        JsonValue::Object { rendered, .. } => chars_of(rendered.as_str()),
    }
}

/// Reports keep at most this many bytes of a value's JSON text.
pub const JSON_DETAIL_LIMIT: usize = 8192;

/// A value's JSON text, cut to `JSON_DETAIL_LIMIT` bytes at a character
/// boundary with a marker after it where it is longer.
pub open spec fn bounded_json_spec(v: JsonValue) -> Seq<char> {
    let t = json_text(v);
    if byte_len(t) <= JSON_DETAIL_LIMIT {
        t
    } else {
        prefix_bytes_spec(t, JSON_DETAIL_LIMIT as nat) + "...[detail truncated]"@
    }
}

pub fn bounded_json(v: &JsonValue) -> (r: String)
    ensures
        r@ == bounded_json_spec(*v),
{
    let t = json_text_of(v);
    if !exceeds_bytes(&t, JSON_DETAIL_LIMIT) {
        return string_from_chars(&t);
    }
    let n = prefix_fitting(&t, JSON_DETAIL_LIMIT);
    let mut out = slice_chars(&t, 0, n);
    append_str(&mut out, "...[detail truncated]");
    proof {
        assert(out@ =~= t@.take(n as int) + "...[detail truncated]"@);
    }
    string_from_chars(&out)
}

/// `items` added to `acc` one by one, each only where it is not there yet.
pub open spec fn add_new(acc: Seq<Seq<char>>, items: Seq<Seq<char>>) -> Seq<Seq<char>>
    decreases items.len(),
{
    if items.len() == 0 {
        acc
    } else {
        let a = add_new(acc, items.drop_last());
        if a.contains(items.last()) {
            a
        } else {
            a.push(items.last())
        }
    }
}

fn contains_text(list: &Vec<String>, item: &String) -> (r: bool)
    ensures
        r == views(list@).contains(item@),
{
    let c = chars_of(item.as_str());
    let mut i: usize = 0;
    while i < list.len()
        invariant
            i <= list@.len(),
            c@ == item@,
            forall|k: int| 0 <= k < i ==> list@[k]@ != item@,
        decreases list.len() - i,
    {
        if chars_eq_str(&c, list[i].as_str()) {
            proof {
                assert(views(list@)[i as int] == item@);
            }
            return true;
        }
        i = i + 1;
    }
    proof {
        if views(list@).contains(item@) {
            let k = choose|k: int| 0 <= k < views(list@).len() && views(list@)[k] == item@;
            assert(list@[k]@ == item@);
        }
    }
    false
}

/// Adds each of `items` to `acc` that `acc` does not hold yet, in order.
pub fn push_new(acc: &mut Vec<String>, items: Vec<String>)
    ensures
        views(final(acc)@) == add_new(views(old(acc)@), views(items@)),
{
    let ghost start = views(acc@);
    let ghost iv = views(items@);
    let mut i: usize = 0;
    proof {
        assert(iv.take(0) =~= Seq::<Seq<char>>::empty());
    }
    while i < items.len()
        invariant
            i <= items@.len(),
            iv == views(items@),
            views(acc@) == add_new(start, iv.take(i as int)),
        decreases items.len() - i,
    {
        proof {
            assert(iv.take(i + 1).drop_last() =~= iv.take(i as int));
            assert(iv.take(i + 1).last() == items@[i as int]@);
        }
        if !contains_text(acc, &items[i]) {
            let ghost before = acc@;
            acc.push(items[i].clone());
            proof {
                assert(views(acc@) =~= views(before).push(items@[i as int]@));
            }
        }
        i = i + 1;
    }
    proof {
        assert(iv.take(items@.len() as int) =~= iv);
    }
}

/// A timestamp in seconds: an unsigned integer, or a string that reads as
/// one or as a date and time (see `parse_timestamp_spec`).
pub open spec fn value_timestamp_spec(v: JsonValue) -> Option<u64> {
    match v {
        JsonValue::Number { text, .. } => number_u64(text@),
        JsonValue::String(s) => match parse_unsigned_spec(s@, u64::MAX as nat) {
            Some(n) => Some(n as u64),
            None => parse_timestamp_spec(s@),
        },
        _ => None,
    }
}

pub open spec fn first_timestamp_spec(v: JsonValue, names: Seq<Seq<char>>) -> Option<u64>
    decreases names.len(),
{
    if names.len() == 0 {
        None
    } else {
        match lookup(v, seq![names[0]]) {
            Some(x) => match value_timestamp_spec(x) {
                Some(t) => Some(t),
                None => first_timestamp_spec(v, names.drop_first()),
            },
            None => first_timestamp_spec(v, names.drop_first()),
        }
    }
}

pub fn value_timestamp(v: &JsonValue) -> (r: Option<u64>)
    ensures
        r == value_timestamp_spec(*v),
{
    match v {
        JsonValue::Number { .. } => value_u64(v),
        JsonValue::String(s) => match parse_unsigned(&chars_of(s.as_str()), u64::MAX) {
            Some(n) => Some(n),
            None => parse_timestamp(s.as_str()),
        },
        _ => None,
    }
}

pub fn first_timestamp(v: &JsonValue, names: &[&str]) -> (r: Option<u64>)
    ensures
        r == first_timestamp_spec(*v, names_view(names@)),
{
    let ghost all = names_view(names@);
    let mut i: usize = 0;
    proof {
        assert(all.skip(0) =~= all);
    }
    while i < names.len()
        invariant
            i <= names@.len(),
            all == names_view(names@),
            first_timestamp_spec(*v, all) == first_timestamp_spec(*v, all.skip(i as int)),
        decreases names.len() - i,
    {
        proof {
            assert(all.skip(i as int)[0] == names@[i as int]@);
            assert(all.skip(i as int).drop_first() =~= all.skip(i + 1));
        }
        match lookup_one(v, names[i]) {
            Some(x) => match value_timestamp(x) {
                Some(t) => {
                    return Some(t);
                },
                None => {},
            },
            None => {},
        }
        i = i + 1;
    }
    None
}

} // verus!

//! System policy: the settings that `tailscale syspolicy` reports.
use vstd::prelude::*;

use crate::domain::LocalFailureKind;
use crate::json::JsonValue;
use crate::local::accounts::{classify_command_detail, command_detail_kind};
use crate::local::process::{
    command_with_words, is_new_command, LocalCommand, LocalOperation, LocalProcessError,
};
use crate::text::{
    append_str, bounded_spec, bounded_string, chars_of, eq_ignore_ascii_case, eq_ignore_case,
    string_from_chars,
};

verus! {

/// Policy values are cut to this many bytes.
pub const POLICY_VALUE_LIMIT: usize = 4096;

#[derive(Debug, Clone, PartialEq, Eq)]
pub struct SystemPolicyEntry {
    pub name: String,
    pub source: Option<String>,
    pub value: Option<String>,
    pub error: Option<String>,
}

#[derive(Debug, Clone, PartialEq, Eq)]
pub enum PolicyError {
    PermissionDenied,
    TimedOut,
    Cancelled,
    Command(String),
    InvalidJson(String),
}

impl PolicyError {
    pub open spec fn message_spec(&self) -> Seq<char> {
        match self {
            PolicyError::PermissionDenied => "system policy command permission denied"@,
            PolicyError::TimedOut => "system policy command timed out"@,
            PolicyError::Cancelled => "system policy command cancelled"@,
            PolicyError::Command(d) => "system policy command failed: "@ + d@,
            PolicyError::InvalidJson(d) => "system policy JSON was invalid: "@ + d@,
        }
    }

    /// The text that describes the error.
    pub fn message(&self) -> (r: String)
        ensures
            r@ == self.message_spec(),
    {
        match self {
            PolicyError::PermissionDenied => "system policy command permission denied".to_owned(),
            PolicyError::TimedOut => "system policy command timed out".to_owned(),
            PolicyError::Cancelled => "system policy command cancelled".to_owned(),
            PolicyError::Command(d) => {
                let mut v = chars_of("system policy command failed: ");
                append_str(&mut v, d.as_str());
                string_from_chars(&v)
            },
            PolicyError::InvalidJson(d) => {
                let mut v = chars_of("system policy JSON was invalid: ");
                append_str(&mut v, d.as_str());
                string_from_chars(&v)
            },
        }
    }

    pub open spec fn failure_kind_spec(&self) -> LocalFailureKind {
        match self {
            PolicyError::PermissionDenied => LocalFailureKind::PermissionDenied,
            PolicyError::TimedOut => LocalFailureKind::TimedOut,
            PolicyError::Cancelled => LocalFailureKind::Cancelled,
            PolicyError::InvalidJson(_) => LocalFailureKind::InvalidOutput,
            PolicyError::Command(detail) => command_detail_kind(detail@),
        }
    }

    pub fn failure_kind(&self) -> (r: LocalFailureKind)
        ensures
            r == self.failure_kind_spec(),
    {
        match self {
            PolicyError::PermissionDenied => LocalFailureKind::PermissionDenied,
            PolicyError::TimedOut => LocalFailureKind::TimedOut,
            PolicyError::Cancelled => LocalFailureKind::Cancelled,
            PolicyError::InvalidJson(_) => LocalFailureKind::InvalidOutput,
            PolicyError::Command(detail) => classify_command_detail(detail.as_str()),
        }
    }

    pub fn retryable(&self) -> (r: bool)
        ensures
            r == (self is Command || self is TimedOut),
    {
        match self {
            PolicyError::Command(_) | PolicyError::TimedOut => true,
            _ => false,
        }
    }
}

pub fn list_command(path: &str, timeout_ms: u64) -> (r: LocalCommand)
    ensures
        is_new_command(r, path@, LocalOperation::SyspolicyList, seq!["syspolicy"@, "list"@, "--json"@]),
        r.timeout_ms == Some(timeout_ms),
{
    let r = command_with_words(path, LocalOperation::SyspolicyList, &["syspolicy", "list", "--json"], Some(timeout_ms));
    proof {
        assert(["syspolicy", "list", "--json"]@.map_values(|w: &str| w@) =~= seq!["syspolicy"@, "list"@, "--json"@]);
    }
    r
}

pub fn reload_command(path: &str, timeout_ms: u64) -> (r: LocalCommand)
    ensures
        is_new_command(r, path@, LocalOperation::SyspolicyReload, seq!["syspolicy"@, "reload"@, "--json"@]),
        r.timeout_ms == Some(timeout_ms),
{
    let r = command_with_words(path, LocalOperation::SyspolicyReload, &["syspolicy", "reload", "--json"], Some(timeout_ms));
    proof {
        assert(["syspolicy", "reload", "--json"]@.map_values(|w: &str| w@) =~= seq!["syspolicy"@, "reload"@, "--json"@]);
    }
    r
}

/// The policy error for a command that could not run to completion.
pub fn process_error(error: LocalProcessError) -> (r: PolicyError)
    ensures
        error is PermissionDenied ==> r == PolicyError::PermissionDenied,
        error is TimedOut ==> r == PolicyError::TimedOut,
        error is Cancelled ==> r == PolicyError::Cancelled,
        !(error is PermissionDenied || error is TimedOut || error is Cancelled) ==> (r is Command
            && r->Command_0@ == error.message_spec()),
{
    match error {
        LocalProcessError::PermissionDenied => PolicyError::PermissionDenied,
        LocalProcessError::TimedOut => PolicyError::TimedOut,
        LocalProcessError::Cancelled => PolicyError::Cancelled,
        other => PolicyError::Command(other.message()),
    }
}

/// The value shown for a policy setting: an auth key is never shown.
pub open spec fn policy_value_spec(name: Seq<char>, value: Seq<char>) -> Seq<char> {
    if eq_ignore_case(name, "AuthKey"@) {
        "[redacted]"@
    } else {
        value
    }
}

pub fn policy_value(name: &str, value: String) -> (r: String)
    ensures
        r@ == policy_value_spec(name@, value@),
{
    if eq_ignore_ascii_case(&chars_of(name), &chars_of("AuthKey")) {
        "[redacted]".to_owned()
    } else {
        value
    }
}

/// A policy value cut to its byte limit, marked when it was cut.
pub fn bound_text(value: &str) -> (r: String)
    ensures
        r@ == bounded_spec(value@, POLICY_VALUE_LIMIT as nat, "\n...[policy value truncated]"@),
{
    bounded_string(value, POLICY_VALUE_LIMIT, "\n...[policy value truncated]")
}


pub ghost struct PolicyEntryView {
    pub name: Seq<char>,
    pub source: Option<Seq<char>>,
    pub value: Option<Seq<char>>,
    pub error: Option<Seq<char>>,
}

impl View for SystemPolicyEntry {
    type V = PolicyEntryView;

    open spec fn view(&self) -> PolicyEntryView {
        PolicyEntryView {
            name: self.name@,
            source: crate::domain::opt_view(self.source),
            value: crate::domain::opt_view(self.value),
            error: crate::domain::opt_view(self.error),
        }
    }
}

pub open spec fn policy_entry_views(v: Seq<SystemPolicyEntry>) -> Seq<PolicyEntryView> {
    v.map_values(|e: SystemPolicyEntry| e@)
}

pub open spec fn bounded_policy_text(t: Seq<char>) -> Seq<char> {
    bounded_spec(t, POLICY_VALUE_LIMIT as nat, "\n...[policy value truncated]"@)
}

/// A JSON value read as text: strings as they are, anything else but null as
/// JSON text; cut to the limit.
pub open spec fn value_text(v: JsonValue) -> Option<Seq<char>> {
    match v {
        JsonValue::Null => None,
        JsonValue::String(t) => Some(bounded_policy_text(t@)),
        JsonValue::Bool(b) => Some(bounded_policy_text(if b { "true"@ } else { "false"@ })),
        JsonValue::Number { text, .. } => Some(bounded_policy_text(text@)),
        JsonValue::Array { rendered, .. } => Some(bounded_policy_text(rendered@)),
        JsonValue::Object { rendered, .. } => Some(bounded_policy_text(rendered@)),
    }
}

/// Where a setting came from: a name, a scope, or `name (scope)`.
pub open spec fn origin_text(v: JsonValue) -> Option<Seq<char>> {
    match v {
        JsonValue::String(t) => Some(t@),
        JsonValue::Object { .. } => {
            let name = match v.get_spec("Name"@) {
                Some(JsonValue::String(n)) => n@,
                _ => Seq::empty(),
            };
            let scope = match v.get_spec("Scope"@) {
                Some(x) => value_text(x),
                None => None,
            };
            if name.len() == 0 {
                match scope {
                    Some(t) => if t.len() > 0 { Some(t) } else { None },
                    None => None,
                }
            } else {
                match scope {
                    Some(t) => if t.len() > 0 { Some(name + " ("@ + t + ")"@) } else { Some(name) },
                    None => Some(name),
                }
            }
        },
        _ => value_text(v),
    }
}

/// One setting of the `Settings` object.
pub open spec fn entry_spec(name: Seq<char>, v: JsonValue) -> Result<PolicyEntryView, Seq<char>> {
    if !(v matches JsonValue::Object { .. }) {
        Err("policy setting "@ + name + " was not an object"@)
    } else {
        Ok(PolicyEntryView {
            name,
            source: match v.get_spec("Origin"@) { Some(o) => origin_text(o), None => None },
            value: match v.get_spec("Value"@) {
                Some(x) => match value_text(x) { Some(t) => Some(policy_value_spec(name, t)), None => None },
                None => None,
            },
            error: match v.get_spec("Error"@) { Some(x) => value_text(x), None => None },
        })
    }
}

/// The settings in the order given, or the first that is not an object.
pub open spec fn entries_spec(entries: Seq<(String, JsonValue)>) -> Result<Seq<PolicyEntryView>, Seq<char>>
    decreases entries.len(),
{
    if entries.len() == 0 {
        Ok(Seq::empty())
    } else {
        match entries_spec(entries.drop_last()) {
            Err(e) => Err(e),
            Ok(done) => match entry_spec(entries.last().0@, entries.last().1) {
                Ok(x) => Ok(done.push(x)),
                Err(e) => Err(e),
            },
        }
    }
}

/// Where `x` goes in `sorted`: after every entry whose name is not greater.
pub open spec fn insert_position(sorted: Seq<PolicyEntryView>, x: PolicyEntryView) -> int
    decreases sorted.len(),
{
    if sorted.len() == 0 {
        0
    } else if crate::text::chars_lt(x.name, sorted.last().name) {
        insert_position(sorted.drop_last(), x)
    } else {
        sorted.len() as int
    }
}

/// The entries sorted by name, entries of equal name in their first order
/// (a stable sort).
pub open spec fn sorted_by_name(entries: Seq<PolicyEntryView>) -> Seq<PolicyEntryView>
    decreases entries.len(),
{
    if entries.len() == 0 {
        Seq::empty()
    } else {
        let rest = sorted_by_name(entries.drop_last());
        rest.insert(insert_position(rest, entries.last()), entries.last())
    }
}

proof fn lemma_insert_position_bound(sorted: Seq<PolicyEntryView>, x: PolicyEntryView)
    ensures
        0 <= insert_position(sorted, x) <= sorted.len(),
    decreases sorted.len(),
{
    if sorted.len() > 0 {
        lemma_insert_position_bound(sorted.drop_last(), x);
    }
}

proof fn lemma_sorted_len(entries: Seq<PolicyEntryView>)
    ensures
        sorted_by_name(entries).len() == entries.len(),
    decreases entries.len(),
{
    if entries.len() > 0 {
        lemma_sorted_len(entries.drop_last());
        lemma_insert_position_bound(sorted_by_name(entries.drop_last()), entries.last());
    }
}

fn value_to_string(v: &JsonValue) -> (r: Option<String>)
    ensures
        crate::domain::opt_view(r) == value_text(*v),
{
    match v {
        JsonValue::Null => None,
        JsonValue::String(t) => Some(bound_text(t.as_str())),
        JsonValue::Bool(b) => Some(bound_text(if *b { "true" } else { "false" })),
        JsonValue::Number { text, .. } => Some(bound_text(text.as_str())),
        JsonValue::Array { rendered, .. } => Some(bound_text(rendered.as_str())),
        JsonValue::Object { rendered, .. } => Some(bound_text(rendered.as_str())),
    }
}

fn origin_to_string(v: &JsonValue) -> (r: Option<String>)
    ensures
        crate::domain::opt_view(r) == origin_text(*v),
{
    match v {
        JsonValue::String(t) => Some(t.clone()),
        JsonValue::Object { .. } => {
            let name: Vec<char> = match v.get("Name") {
                Some(JsonValue::String(n)) => chars_of(n.as_str()),
                _ => Vec::new(),
            };
            let scope = match v.get("Scope") {
                Some(x) => value_to_string(x),
                None => None,
            };
            if name.len() == 0 {
                match scope {
                    Some(t) => if !t.as_str().is_empty() { Some(t) } else { None },
                    None => None,
                }
            } else {
                match scope {
                    Some(t) => if !t.as_str().is_empty() {
                        let mut out = name;
                        append_str(&mut out, " (");
                        append_str(&mut out, t.as_str());
                        append_str(&mut out, ")");
                        Some(string_from_chars(&out))
                    } else {
                        Some(string_from_chars(&name))
                    },
                    None => Some(string_from_chars(&name)),
                }
            }
        },
        _ => value_to_string(v),
    }
}

fn entry_from_value(name: &String, v: &JsonValue) -> (r: Result<SystemPolicyEntry, PolicyError>)
    ensures
        match entry_spec(name@, *v) {
            Ok(x) => r matches Ok(e) && e@ == x,
            Err(m) => r matches Err(PolicyError::InvalidJson(d)) && d@ == m,
        },
{
    if !matches!(v, JsonValue::Object { .. }) {
        let mut d = chars_of("policy setting ");
        append_str(&mut d, name.as_str());
        append_str(&mut d, " was not an object");
        return Err(PolicyError::InvalidJson(string_from_chars(&d)));
    }
    let source = match v.get("Origin") {
        Some(o) => origin_to_string(o),
        None => None,
    };
    let value = match v.get("Value") {
        Some(x) => match value_to_string(x) {
            Some(t) => Some(policy_value(name.as_str(), t)),
            None => None,
        },
        None => None,
    };
    let error = match v.get("Error") {
        Some(x) => value_to_string(x),
        None => None,
    };
    Ok(SystemPolicyEntry { name: name.clone(), source, value, error })
}

/// The settings of `tailscale syspolicy list --json`, sorted by name.
/// `parsed` is the output read as JSON, or the parser's message.
pub fn decode_policy(parsed: &Result<JsonValue, String>) -> (r: Result<Vec<SystemPolicyEntry>, PolicyError>)
    ensures
        match parsed {
            Err(m) => r matches Err(PolicyError::InvalidJson(d)) && d@ == m@,
            Ok(v) => if !(v matches JsonValue::Object { .. }) {
                r matches Err(PolicyError::InvalidJson(d)) && d@ == "policy response was not a JSON object"@
            } else {
                match v.get_spec("Settings"@) {
                    Some(JsonValue::Object { entries, .. }) => match entries_spec(entries@) {
                        Err(m) => r matches Err(PolicyError::InvalidJson(d)) && d@ == m,
                        Ok(list) => r matches Ok(out) && policy_entry_views(out@) == sorted_by_name(list),
                    },
                    _ => r matches Err(PolicyError::InvalidJson(d)) && d@ == "policy response did not contain a Settings object"@,
                }
            },
        },
{
    let value = match parsed {
        Err(m) => {
            return Err(PolicyError::InvalidJson(m.clone()));
        },
        Ok(v) => v,
    };
    if !matches!(value, JsonValue::Object { .. }) {
        return Err(PolicyError::InvalidJson("policy response was not a JSON object".to_owned()));
    }
    let entries = match value.get("Settings") {
        Some(JsonValue::Object { entries, rendered }) => {
            proof {
                assert(value.get_spec("Settings"@) == Some(JsonValue::Object { entries: *entries, rendered: *rendered }));
            }
            entries
        },
        _ => {
            return Err(PolicyError::InvalidJson("policy response did not contain a Settings object".to_owned()));
        },
    };
    let ghost settings = value.get_spec("Settings"@);
    let mut sorted: Vec<SystemPolicyEntry> = Vec::new();
    let mut i: usize = 0;
    proof {
        assert(entries@.take(0) =~= Seq::<(String, JsonValue)>::empty());
    }
    while i < entries.len()
        invariant
            i <= entries@.len(),
            *parsed == Ok::<JsonValue, String>(*value),
            value matches JsonValue::Object { .. },
            settings == value.get_spec("Settings"@),
            settings matches Some(JsonValue::Object { entries: es, .. }) && es == *entries,
            entries_spec(entries@.take(i as int)) matches Ok(done) && policy_entry_views(sorted@) == sorted_by_name(done),
        decreases entries.len() - i,
    {
        let ghost done = entries_spec(entries@.take(i as int))->Ok_0;
        proof {
            assert(entries@.take(i + 1).drop_last() =~= entries@.take(i as int));
            assert(entries@.take(i + 1).last() == entries@[i as int]);
        }
        let entry = match entry_from_value(&entries[i].0, &entries[i].1) {
            Ok(e) => e,
            Err(e) => {
                proof {
                    lemma_entries_error_stays(entries@, (i + 1) as int);
                }
                return Err(e);
            },
        };
        let ghost x = entry@;
        let ghost sv = policy_entry_views(sorted@);
        let mut k: usize = sorted.len();
        proof {
            assert(sv.take(sorted@.len() as int) =~= sv);
        }
        while k > 0 && crate::text::chars_less(&chars_of(entry.name.as_str()), &chars_of(sorted[k - 1].name.as_str()))
            invariant
                k <= sorted@.len(),
                sv == policy_entry_views(sorted@),
                x == entry@,
                insert_position(sv, x) == insert_position(sv.take(k as int), x),
            decreases k,
        {
            proof {
                assert(sv.take(k as int).drop_last() =~= sv.take(k - 1));
                assert(sv.take(k as int).last() == sorted@[k - 1]@);
            }
            k = k - 1;
        }
        proof {
            assert(insert_position(sv.take(k as int), x) == k);
        }
        sorted.insert(k, entry);
        proof {
            assert(policy_entry_views(sorted@) =~= sv.insert(k as int, x));
            assert(entries_spec(entries@.take(i + 1)) == Ok::<Seq<PolicyEntryView>, Seq<char>>(done.push(x)));
            assert(done.push(x).drop_last() =~= done);
        }
        i = i + 1;
    }
    proof {
        assert(entries@.take(entries@.len() as int) =~= entries@);
    }
    Ok(sorted)
}

/// The first setting that is not an object stays the answer.
proof fn lemma_entries_error_stays(entries: Seq<(String, JsonValue)>, n: int)
    requires
        0 <= n <= entries.len(),
        entries_spec(entries.take(n)) is Err,
    ensures
        entries_spec(entries) == entries_spec(entries.take(n)),
    decreases entries.len() - n,
{
    if n < entries.len() {
        assert(entries.take(n + 1).drop_last() =~= entries.take(n));
        lemma_entries_error_stays(entries, n + 1);
    } else {
        assert(entries.take(n) =~= entries);
    }
}

} // verus!

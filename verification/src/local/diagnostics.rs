//! `tailscale ping`, `netcheck`, `dns` and `whois`: the command lines, the
//! checks on what the user typed, and the reading of ping replies.
use vstd::prelude::*;

use crate::domain::{
    opt_view, DerpLatency, DerpLatencyView, DiagnosticPath, DiagnosticPathView, DnsAnswer,
    DnsAnswerView, DnsQueryResult, DnsStatus, NetcheckObservation, PingSample, Timestamp,
    WhoisResult,
};
use crate::json::JsonValue;
use crate::local::client::views;
use crate::local::keyed::{lemma_keyed_insert, lemma_keyed_replace, lists_map};
use crate::local::json_fields::{
    add_new, bounded_json, bounded_json_spec, first_bool, first_bool_spec, first_latency_spec,
    first_string, first_string_spec, first_u64, first_u64_spec, latency_spec, lookup,
    lookup_field, names_view, opt_ref, parse_strings, parse_strings_spec, push_new,
    value_string, value_string_spec,
};
use crate::local::process::{command_with_words, is_command, LocalCommand, LocalOperation, OutputMode, StdinMode};
use crate::numbers::{decimal, format_u64, parse_unsigned, parse_unsigned_spec};
use crate::text::{
    lower_char,
    any_whitespace, has_ws, before_first, before_first_chars, chars_of, eq_ignore_ascii_case,
    eq_ignore_case, find_chars, find_first, find_from, lower_seq, lowercase, seq_contains, slice_chars,
    split_whitespace, str_contains, string_from_chars, strip_suffix, strip_suffix_chars,
    tokens_of, trim, trim_chars, trim_in, trim_matching, chars_eq_str, chars_less, chars_lt, append_str,
    lemma_chars_lt_irreflexive, lemma_chars_lt_total, lemma_chars_lt_transitive,
};

verus! {

pub const PING_OUTPUT_LIMIT: usize = 262144;

#[derive(Debug, Clone, Copy, PartialEq, Eq, Structural)]
pub enum DnsRecordType {
    A,
    Aaaa,
    Cname,
    Mx,
    Ns,
    Ptr,
    Srv,
    Txt,
}

/// `a` equals the text `b` once ASCII letters are lower-cased.
fn same_ignoring_case(a: &Vec<char>, b: &str) -> (r: bool)
    ensures
        r == eq_ignore_case(a@, b@),
{
    let bc = chars_of(b);
    eq_ignore_ascii_case(a, &bc)
}

impl DnsRecordType {
    pub open spec fn label_spec(self) -> Seq<char> {
        match self {
            DnsRecordType::A => "A"@,
            DnsRecordType::Aaaa => "AAAA"@,
            DnsRecordType::Cname => "CNAME"@,
            DnsRecordType::Mx => "MX"@,
            DnsRecordType::Ns => "NS"@,
            DnsRecordType::Ptr => "PTR"@,
            DnsRecordType::Srv => "SRV"@,
            DnsRecordType::Txt => "TXT"@,
        }
    }

    /// The record type as `tailscale dns query` spells it.
    pub fn label(self) -> (r: &'static str)
        ensures
            r@ == self.label_spec(),
    {
        match self {
            DnsRecordType::A => "A",
            DnsRecordType::Aaaa => "AAAA",
            DnsRecordType::Cname => "CNAME",
            DnsRecordType::Mx => "MX",
            DnsRecordType::Ns => "NS",
            DnsRecordType::Ptr => "PTR",
            DnsRecordType::Srv => "SRV",
            DnsRecordType::Txt => "TXT",
        }
    }

    /// The record type whose name `value` is, in any ASCII case.
    pub open spec fn parse_spec(value: Seq<char>) -> Option<DnsRecordType> {
        if eq_ignore_case(value, "A"@) {
            Some(DnsRecordType::A)
        } else if eq_ignore_case(value, "AAAA"@) {
            Some(DnsRecordType::Aaaa)
        } else if eq_ignore_case(value, "CNAME"@) {
            Some(DnsRecordType::Cname)
        } else if eq_ignore_case(value, "MX"@) {
            Some(DnsRecordType::Mx)
        } else if eq_ignore_case(value, "NS"@) {
            Some(DnsRecordType::Ns)
        } else if eq_ignore_case(value, "PTR"@) {
            Some(DnsRecordType::Ptr)
        } else if eq_ignore_case(value, "SRV"@) {
            Some(DnsRecordType::Srv)
        } else if eq_ignore_case(value, "TXT"@) {
            Some(DnsRecordType::Txt)
        } else {
            None
        }
    }

    pub fn parse(value: &str) -> (r: Option<Self>)
        ensures
            r == Self::parse_spec(value@),
    {
        let v = chars_of(value);
        if same_ignoring_case(&v, "A") {
            Some(DnsRecordType::A)
        } else if same_ignoring_case(&v, "AAAA") {
            Some(DnsRecordType::Aaaa)
        } else if same_ignoring_case(&v, "CNAME") {
            Some(DnsRecordType::Cname)
        } else if same_ignoring_case(&v, "MX") {
            Some(DnsRecordType::Mx)
        } else if same_ignoring_case(&v, "NS") {
            Some(DnsRecordType::Ns)
        } else if same_ignoring_case(&v, "PTR") {
            Some(DnsRecordType::Ptr)
        } else if same_ignoring_case(&v, "SRV") {
            Some(DnsRecordType::Srv)
        } else if same_ignoring_case(&v, "TXT") {
            Some(DnsRecordType::Txt)
        } else {
            None
        }
    }
}

#[derive(Debug, Clone, Copy, PartialEq, Eq, Structural)]
pub enum WhoisProtocol {
    Tcp,
    Udp,
}

impl WhoisProtocol {
    pub open spec fn label_spec(self) -> Seq<char> {
        match self {
            WhoisProtocol::Tcp => "tcp"@,
            WhoisProtocol::Udp => "udp"@,
        }
    }

    pub fn label(self) -> (r: &'static str)
        ensures
            r@ == self.label_spec(),
    {
        match self {
            WhoisProtocol::Tcp => "tcp",
            WhoisProtocol::Udp => "udp",
        }
    }
}

/// A diagnostic that the user asked for.
#[derive(Debug, Clone, PartialEq, Eq)]
pub enum DiagnosticRequest {
    Ping { target: String },
    Netcheck { live: bool },
    DnsStatus,
    DnsQuery { name: String, record_type: DnsRecordType },
    Whois { target: String, protocol: Option<WhoisProtocol> },
}

impl DiagnosticRequest {
    pub open spec fn label_spec(&self) -> Seq<char> {
        match self {
            DiagnosticRequest::Ping { .. } => "ping"@,
            DiagnosticRequest::Netcheck { live } => if *live { "netcheck live"@ } else { "netcheck"@ },
            DiagnosticRequest::DnsStatus => "dns status"@,
            DiagnosticRequest::DnsQuery { .. } => "dns query"@,
            DiagnosticRequest::Whois { .. } => "whois"@,
        }
    }

    pub fn label(&self) -> (r: &'static str)
        ensures
            r@ == self.label_spec(),
    {
        match self {
            DiagnosticRequest::Ping { .. } => "ping",
            DiagnosticRequest::Netcheck { live } => if *live { "netcheck live" } else { "netcheck" },
            DiagnosticRequest::DnsStatus => "dns status",
            DiagnosticRequest::DnsQuery { .. } => "dns query",
            DiagnosticRequest::Whois { .. } => "whois",
        }
    }
}

/// `tailscale ping` with ten probes, each line read as it comes.
pub fn ping_command(path: &str, timeout_ms: u64, target: &str) -> (r: LocalCommand)
    ensures
        is_command(
            r,
            path@,
            LocalOperation::Ping,
            seq!["ping"@, "--c=10"@, "--timeout=5s"@, "--until-direct=true"@, target@],
            Some(timeout_ms),
            OutputMode::Lines,
            OutputMode::Lines,
            PING_OUTPUT_LIMIT,
            PING_OUTPUT_LIMIT,
        ),
{
    let words = ["ping", "--c=10", "--timeout=5s", "--until-direct=true", target];
    let c = command_with_words(path, LocalOperation::Ping, &words, Some(timeout_ms));
    proof {
        assert(words@.map_values(|w: &str| w@) =~= seq!["ping"@, "--c=10"@, "--timeout=5s"@, "--until-direct=true"@, target@]);
    }
    c.with_modes(OutputMode::Lines, OutputMode::Lines).with_limits(PING_OUTPUT_LIMIT, PING_OUTPUT_LIMIT)
}

/// `tailscale netcheck`; the live form reports every two seconds as JSON lines
/// and runs until stopped where no time limit is given.
pub fn netcheck_command(path: &str, timeout_ms: Option<u64>, live: bool) -> (r: LocalCommand)
    ensures
        live ==> is_command(
            r,
            path@,
            LocalOperation::Netcheck,
            seq!["netcheck"@, "--format=json-line"@, "--every=2s"@],
            timeout_ms,
            OutputMode::Lines,
            OutputMode::Lines,
            4194304,
            262144,
        ),
        !live ==> is_command(
            r,
            path@,
            LocalOperation::Netcheck,
            seq!["netcheck"@, "--format=json"@],
            timeout_ms,
            OutputMode::Lines,
            OutputMode::Lines,
            4194304,
            262144,
        ),
{
    if live {
        let words = ["netcheck", "--format=json-line", "--every=2s"];
        let c = command_with_words(path, LocalOperation::Netcheck, &words, timeout_ms);
        proof {
            assert(words@.map_values(|w: &str| w@) =~= seq!["netcheck"@, "--format=json-line"@, "--every=2s"@]);
        }
        c.with_modes(OutputMode::Lines, OutputMode::Lines).with_limits(4194304, 262144)
    } else {
        let words = ["netcheck", "--format=json"];
        let c = command_with_words(path, LocalOperation::Netcheck, &words, timeout_ms);
        proof {
            assert(words@.map_values(|w: &str| w@) =~= seq!["netcheck"@, "--format=json"@]);
        }
        c.with_modes(OutputMode::Lines, OutputMode::Lines).with_limits(4194304, 262144)
    }
}

pub fn dns_status_command(path: &str, timeout_ms: u64) -> (r: LocalCommand)
    ensures
        is_command(
            r,
            path@,
            LocalOperation::DnsStatus,
            seq!["dns"@, "status"@, "--json"@],
            Some(timeout_ms),
            OutputMode::Collect,
            OutputMode::Collect,
            4194304,
            262144,
        ),
{
    let words = ["dns", "status", "--json"];
    let c = command_with_words(path, LocalOperation::DnsStatus, &words, Some(timeout_ms));
    proof {
        assert(words@.map_values(|w: &str| w@) =~= seq!["dns"@, "status"@, "--json"@]);
    }
    c.with_limits(4194304, 262144)
}

pub fn dns_query_command(path: &str, timeout_ms: u64, name: &str, record_type: DnsRecordType) -> (r: LocalCommand)
    ensures
        is_command(
            r,
            path@,
            LocalOperation::DnsQuery,
            seq!["dns"@, "query"@, "--json"@, name@, record_type.label_spec()],
            Some(timeout_ms),
            OutputMode::Collect,
            OutputMode::Collect,
            4194304,
            262144,
        ),
{
    let words = ["dns", "query", "--json", name, record_type.label()];
    let c = command_with_words(path, LocalOperation::DnsQuery, &words, Some(timeout_ms));
    proof {
        assert(words@.map_values(|w: &str| w@) =~= seq!["dns"@, "query"@, "--json"@, name@, record_type.label_spec()]);
    }
    c.with_limits(4194304, 262144)
}

pub open spec fn whois_words(target: Seq<char>, protocol: Option<WhoisProtocol>) -> Seq<Seq<char>> {
    match protocol {
        Some(p) => seq!["whois"@, "--json"@, "--proto="@ + p.label_spec(), target],
        None => seq!["whois"@, "--json"@, target],
    }
}

pub fn whois_command(path: &str, timeout_ms: u64, target: &str, protocol: Option<WhoisProtocol>) -> (r: LocalCommand)
    ensures
        is_command(
            r,
            path@,
            LocalOperation::Whois,
            whois_words(target@, protocol),
            Some(timeout_ms),
            OutputMode::Collect,
            OutputMode::Collect,
            4194304,
            262144,
        ),
{
    match protocol {
        Some(WhoisProtocol::Tcp) => {
            let words = ["whois", "--json", "--proto=tcp", target];
            let c = command_with_words(path, LocalOperation::Whois, &words, Some(timeout_ms));
            proof {
                reveal_strlit("--proto=tcp");
                reveal_strlit("--proto=");
                reveal_strlit("tcp");
                assert("--proto=tcp"@ =~= "--proto="@ + "tcp"@);
                assert(words@.map_values(|w: &str| w@) =~= whois_words(target@, protocol));
            }
            c.with_limits(4194304, 262144)
        },
        Some(WhoisProtocol::Udp) => {
            let words = ["whois", "--json", "--proto=udp", target];
            let c = command_with_words(path, LocalOperation::Whois, &words, Some(timeout_ms));
            proof {
                reveal_strlit("--proto=udp");
                reveal_strlit("--proto=");
                reveal_strlit("udp");
                assert("--proto=udp"@ =~= "--proto="@ + "udp"@);
                assert(words@.map_values(|w: &str| w@) =~= whois_words(target@, protocol));
            }
            c.with_limits(4194304, 262144)
        },
        None => {
            let words = ["whois", "--json", target];
            let c = command_with_words(path, LocalOperation::Whois, &words, Some(timeout_ms));
            proof {
                assert(words@.map_values(|w: &str| w@) =~= whois_words(target@, protocol));
            }
            c.with_limits(4194304, 262144)
        },
    }
}

/// A DNS query needs a name without white space and a known record type.
pub fn validate_dns_query(name: &str, record_type: &str) -> (r: Result<DnsRecordType, String>)
    ensures
        name@.len() == 0 || has_ws(name@) ==> (r matches Err(e) && e@ == "DNS name must be non-empty and contain no whitespace"@),
        !(name@.len() == 0 || has_ws(name@)) ==> match DnsRecordType::parse_spec(record_type@) {
            Some(t) => r == Ok::<DnsRecordType, String>(t),
            None => (r matches Err(e) && e@ == "DNS record type must be one of A, AAAA, CNAME, MX, NS, PTR, SRV, TXT"@),
        },
{
    let n = chars_of(name);
    if n.len() == 0 || any_whitespace(&n) {
        return Err("DNS name must be non-empty and contain no whitespace".to_owned());
    }
    match DnsRecordType::parse(record_type) {
        Some(t) => Ok(t),
        None => Err("DNS record type must be one of A, AAAA, CNAME, MX, NS, PTR, SRV, TXT".to_owned()),
    }
}


/// The whole milliseconds that a token such as `12.5ms,` gives.
pub open spec fn latency_token_spec(token: Seq<char>) -> Option<u64> {
    match strip_suffix(trim_in(token, seq![',', ')', '(', '[', ']']), "ms"@) {
        Some(number) => match parse_unsigned_spec(before_first(number, "."@), u64::MAX as nat) {
            Some(v) => Some(v as u64),
            None => None,
        },
        None => None,
    }
}

/// The latency of the first token that reads as one.
pub open spec fn first_latency(tokens: Seq<Seq<char>>) -> Option<u64>
    decreases tokens.len(),
{
    if tokens.len() == 0 {
        None
    } else {
        match latency_token_spec(tokens[0]) {
            Some(v) => Some(v),
            None => first_latency(tokens.drop_first()),
        }
    }
}

/// The text after the first `marker` (searched without regard to ASCII case),
/// up to ` in `, without surrounding white space or `:`, `(`, `)`, `,`.
pub open spec fn value_after_spec(value: Seq<char>, marker: Seq<char>) -> Option<Seq<char>> {
    match find_first(lower_seq(value), marker) {
        Some(p) => {
            let rest = before_first(trim(value.skip(p + marker.len())), " in "@);
            let rest = trim_in(rest, seq![':', '(', ')', ',']);
            if rest.len() == 0 {
                None
            } else {
                Some(rest)
            }
        },
        None => None,
    }
}

/// The line, trimmed, is a ping reply.
pub open spec fn is_ping_reply(line: Seq<char>) -> bool {
    let t = trim(line);
    t.len() > 0 && (seq_contains(lower_seq(t), "pong"@) || seq_contains(lower_seq(t), "reply"@))
}

/// The path that a reply line names.
pub open spec fn ping_path_spec(t: Seq<char>) -> DiagnosticPathView {
    let lower = lower_seq(t);
    if seq_contains(lower, "peer-relay"@) || seq_contains(lower, "peer relay"@) {
        DiagnosticPathView::PeerRelay { peer: value_after_spec(t, "via"@) }
    } else if seq_contains(lower, "derp"@) {
        DiagnosticPathView::Derp { region: value_after_spec(t, "derp"@) }
    } else if seq_contains(lower, "direct"@) || value_after_spec(t, "via"@).is_some() {
        DiagnosticPathView::Direct
    } else {
        DiagnosticPathView::Unknown
    }
}

fn parse_latency_token(token: &Vec<char>) -> (r: Option<u64>)
    ensures
        r == latency_token_spec(token@),
{
    let set = [',', ')', '(', '[', ']'];
    proof {
        assert(set@ =~= seq![',', ')', '(', '[', ']']);
    }
    let t = trim_matching(token, &set);
    match strip_suffix_chars(&t, "ms") {
        Some(number) => {
            let whole = before_first_chars(&number, ".");
            parse_unsigned(&whole, u64::MAX)
        },
        None => None,
    }
}

fn find_latency(tokens: &Vec<Vec<char>>) -> (r: Option<u64>)
    ensures
        r == first_latency(tokens@.map_values(|t: Vec<char>| t@)),
{
    let ghost all = tokens@.map_values(|t: Vec<char>| t@);
    let mut i: usize = 0;
    proof {
        assert(all.skip(0) =~= all);
    }
    while i < tokens.len()
        invariant
            i <= tokens.len(),
            all == tokens@.map_values(|t: Vec<char>| t@),
            first_latency(all) == first_latency(all.skip(i as int)),
        decreases tokens.len() - i,
    {
        let v = parse_latency_token(&tokens[i]);
        proof {
            assert(all.skip(i as int)[0] == tokens@[i as int]@);
            assert(all.skip(i as int).drop_first() =~= all.skip(i + 1));
        }
        if v.is_some() {
            return v;
        }
        i = i + 1;
    }
    proof {
        assert(all.skip(i as int).len() == 0);
    }
    None
}

fn value_after(value: &Vec<char>, marker: &str) -> (r: Option<String>)
    ensures
        opt_view(r) == value_after_spec(value@, marker@),
{
    let lower = lowercase(value);
    let m = chars_of(marker);
    match find_chars(&lower, &m) {
        None => None,
        Some(p) => {
            proof {
                crate::text::lemma_find_from_bound(lower@, m@, 0);
                assert(find_from(lower@, m@, 0) == Some(p as int));
                assert(p + m@.len() <= lower@.len());
                assert(lower@.len() == value@.len());
            }
            assert(p + m.len() <= value.len());
            let after = slice_chars(value, p + m.len(), value.len());
            proof {
                assert(after@ =~= value@.skip(p + m@.len()));
            }
            let trimmed = trim_chars(&after);
            let cut = before_first_chars(&trimmed, " in ");
            let set = [':', '(', ')', ','];
            proof {
                assert(set@ =~= seq![':', '(', ')', ',']);
            }
            let rest = trim_matching(&cut, &set);
            if rest.len() == 0 {
                None
            } else {
                Some(string_from_chars(&rest))
            }
        },
    }
}

/// `sample` is what a ping reply `line` reads as, with the given sequence
/// number and time.
pub open spec fn ping_sample_matches(sample: PingSample, line: Seq<char>, sequence: u64, observed_at: Timestamp) -> bool {
    let t = trim(line);
    &&& sample.sequence == sequence
    &&& sample.observed_at == observed_at
    &&& sample.latency_ms == first_latency(tokens_of(t))
    &&& sample.path@ == ping_path_spec(t)
    &&& opt_view(sample.endpoint_or_region) == value_after_spec(t, "via"@)
    &&& sample.raw_line@ == t
}

/// One reply line of `tailscale ping` read as a sample; other lines give
/// nothing.
pub fn parse_ping_line(line: &str, sequence: u64, observed_at: Timestamp) -> (r: Option<PingSample>)
    ensures
        r.is_some() == is_ping_reply(line@),
        r matches Some(sample) ==> ping_sample_matches(sample, line@, sequence, observed_at),
{
    let chars = chars_of(line);
    let trimmed = trim_chars(&chars);
    if trimmed.len() == 0 {
        return None;
    }
    let lower = lowercase(&trimmed);
    if !str_contains(&lower, "pong") && !str_contains(&lower, "reply") {
        return None;
    }
    let tokens = split_whitespace(&trimmed);
    proof {
        assert(tokens@.map_values(|t: Vec<char>| t@) =~= tokens_of(trimmed@));
    }
    let latency_ms = find_latency(&tokens);
    let endpoint_or_region = value_after(&trimmed, "via");
    let path = if str_contains(&lower, "peer-relay") || str_contains(&lower, "peer relay") {
        DiagnosticPath::PeerRelay { peer: value_after(&trimmed, "via") }
    } else if str_contains(&lower, "derp") {
        DiagnosticPath::Derp { region: value_after(&trimmed, "derp") }
    } else if str_contains(&lower, "direct") || endpoint_or_region.is_some() {
        DiagnosticPath::Direct
    } else {
        DiagnosticPath::Unknown
    };
    Some(PingSample {
        sequence,
        observed_at,
        latency_ms,
        path,
        endpoint_or_region,
        raw_line: string_from_chars(&trimmed),
    })
}

pub open spec fn route_views(r: Seq<(String, Vec<String>)>) -> Seq<(Seq<char>, Seq<Seq<char>>)> {
    r.map_values(|p: (String, Vec<String>)| (p.0@, views(p.1@)))
}

/// The name-server lists of an object keyed by DNS suffix; a suffix that
/// repeats keeps its last list.
pub open spec fn routes_map(entries: Seq<(String, JsonValue)>) -> Map<Seq<char>, Seq<Seq<char>>>
    decreases entries.len(),
{
    if entries.len() == 0 {
        Map::empty()
    } else {
        routes_map(entries.drop_last()).insert(
            entries.last().0@,
            parse_strings_spec(Some(entries.last().1)),
        )
    }
}

pub open spec fn split_routes_spec(v: Option<JsonValue>) -> Map<Seq<char>, Seq<Seq<char>>> {
    match v {
        Some(JsonValue::Object { entries, .. }) => routes_map(entries@),
        _ => Map::empty(),
    }
}

/// The name servers of each DNS suffix, sorted by suffix.
pub fn parse_split_routes(v: Option<&JsonValue>) -> (r: Vec<(String, Vec<String>)>)
    ensures
        lists_map(route_views(r@), split_routes_spec(opt_ref(v))),
{
    let mut out: Vec<(String, Vec<String>)> = Vec::new();
    let entries = match v {
        Some(JsonValue::Object { entries, .. }) => entries,
        _ => {
            return out;
        },
    };
    let mut i: usize = 0;
    proof {
        assert(entries@.take(0) =~= Seq::<(String, JsonValue)>::empty());
        assert(routes_map(entries@.take(0)) =~= Map::<Seq<char>, Seq<Seq<char>>>::empty());
    }
    while i < entries.len()
        invariant
            i <= entries@.len(),
            v matches Some(JsonValue::Object { entries: e, .. }) && e == *entries,
            lists_map(route_views(out@), routes_map(entries@.take(i as int))),
        decreases entries.len() - i,
    {
        proof {
            assert(entries@.take(i + 1).drop_last() =~= entries@.take(i as int));
            assert(entries@.take(i + 1).last() == entries@[i as int]);
        }
        let key = chars_of(entries[i].0.as_str());
        let list = parse_strings(Some(&entries[i].1));
        let ghost rv = route_views(out@);
        let mut j: usize = 0;
        while j < out.len() && chars_less(&chars_of(out[j].0.as_str()), &key)
            invariant
                j <= out@.len(),
                rv == route_views(out@),
                forall|a: int| 0 <= a < j ==> chars_lt(#[trigger] rv[a].0, key@),
            decreases out.len() - j,
        {
            j = j + 1;
        }
        let ghost m = routes_map(entries@.take(i as int));
        if j < out.len() && chars_eq_str(&key, out[j].0.as_str()) {
            proof {
                lemma_keyed_replace(rv, m, j as int, key@, views(list@));
            }
            out.set(j, (entries[i].0.clone(), list));
            proof {
                assert(route_views(out@) =~= rv.update(j as int, (key@, views(list@))));
            }
        } else {
            proof {
                lemma_keyed_insert(rv, m, j as int, key@, views(list@));
            }
            out.insert(j, (entries[i].0.clone(), list));
            proof {
                assert(route_views(out@) =~= rv.insert(j as int, (key@, views(list@))));
            }
        }
        i = i + 1;
    }
    proof {
        assert(entries@.take(entries@.len() as int) =~= entries@);
    }
    out
}

/// `s` is what a DNS status report `v` says, read at `at`.
pub open spec fn dns_status_matches(s: DnsStatus, v: JsonValue, at: Timestamp) -> bool {
    &&& s.forwarder_enabled == first_bool_spec(v, seq!["Forwarder"@, "ForwarderEnabled"@, "LocalForwarder"@])
    &&& s.magic_dns_enabled == first_bool_spec(v, seq!["MagicDNS"@, "MagicDNSEnabled"@, "magicDnsEnabled"@])
    &&& opt_view(s.magic_dns_suffix) == first_string_spec(v, seq!["MagicDNSSuffix"@, "Suffix"@, "magicDnsSuffix"@])
    &&& opt_view(s.current_node_dns_name) == first_string_spec(
        v,
        seq!["CurrentNodeDNSName"@, "DNSName"@, "currentNodeDnsName"@],
    )
    &&& views(s.resolvers@) == parse_strings_spec(lookup(v, seq!["Resolvers"@, "Nameservers"@, "resolvers"@]))
    &&& lists_map(
        route_views(s.split_routes@),
        split_routes_spec(lookup(v, seq!["SplitDNS"@, "SplitRoutes"@, "splitDns"@])),
    )
    &&& views(s.cert_domains@) == parse_strings_spec(lookup(v, seq!["CertDomains"@, "CertificateDomains"@]))
    &&& s.observed_at == at
}

/// What `tailscale dns status --json` reports, read at `observed_at`.
/// `parsed` is the output read as JSON, or the parser's message.
pub fn parse_dns_status(parsed: &Result<JsonValue, String>, observed_at: Timestamp) -> (r: Result<
    DnsStatus,
    String,
>)
    ensures
        match parsed {
            Err(m) => r matches Err(e) && e@ == "invalid DNS status JSON: "@ + m@,
            Ok(v) => r matches Ok(s) && dns_status_matches(s, *v, observed_at),
        },
{
    let value = match parsed {
        Err(m) => {
            let mut d = chars_of("invalid DNS status JSON: ");
            append_str(&mut d, m.as_str());
            return Err(string_from_chars(&d));
        },
        Ok(v) => v,
    };
    let forwarder = ["Forwarder", "ForwarderEnabled", "LocalForwarder"];
    let magic = ["MagicDNS", "MagicDNSEnabled", "magicDnsEnabled"];
    let suffix = ["MagicDNSSuffix", "Suffix", "magicDnsSuffix"];
    let node = ["CurrentNodeDNSName", "DNSName", "currentNodeDnsName"];
    let resolvers = ["Resolvers", "Nameservers", "resolvers"];
    let routes = ["SplitDNS", "SplitRoutes", "splitDns"];
    let certs = ["CertDomains", "CertificateDomains"];
    proof {
        assert(names_view(forwarder@) =~= seq!["Forwarder"@, "ForwarderEnabled"@, "LocalForwarder"@]);
        assert(names_view(magic@) =~= seq!["MagicDNS"@, "MagicDNSEnabled"@, "magicDnsEnabled"@]);
        assert(names_view(suffix@) =~= seq!["MagicDNSSuffix"@, "Suffix"@, "magicDnsSuffix"@]);
        assert(names_view(node@) =~= seq!["CurrentNodeDNSName"@, "DNSName"@, "currentNodeDnsName"@]);
        assert(names_view(resolvers@) =~= seq!["Resolvers"@, "Nameservers"@, "resolvers"@]);
        assert(names_view(routes@) =~= seq!["SplitDNS"@, "SplitRoutes"@, "splitDns"@]);
        assert(names_view(certs@) =~= seq!["CertDomains"@, "CertificateDomains"@]);
    }
    let split = parse_split_routes(lookup_field(value, &routes));
    Ok(DnsStatus {
        forwarder_enabled: first_bool(value, &forwarder),
        magic_dns_enabled: first_bool(value, &magic),
        magic_dns_suffix: first_string(value, &suffix),
        current_node_dns_name: first_string(value, &node),
        resolvers: parse_strings(lookup_field(value, &resolvers)),
        split_routes: split,
        cert_domains: parse_strings(lookup_field(value, &certs)),
        observed_at,
    })
}

/// One entry of a DNS answer list: a string is the answer itself; any other
/// value is read for its value, type and TTL and kept as JSON text.
pub open spec fn answer_spec(item: JsonValue) -> DnsAnswerView {
    match item {
        JsonValue::String(s) => DnsAnswerView { value: s@, record_type: None, ttl: None, raw_detail: None },
        _ => DnsAnswerView {
            value: match first_string_spec(item, seq!["Value"@, "Data"@, "Target"@, "value"@]) {
                Some(t) => t,
                None => bounded_json_spec(item),
            },
            record_type: first_string_spec(item, seq!["Type"@, "type"@]),
            ttl: first_u64_spec(item, seq!["TTL"@, "Ttl"@, "ttl"@]),
            raw_detail: Some(bounded_json_spec(item)),
        },
    }
}

/// The answers: one per entry of an array, or a single answer made of any
/// other value.
pub open spec fn answers_spec(v: Option<JsonValue>) -> Seq<DnsAnswerView> {
    match v {
        Some(JsonValue::Array { items, .. }) => items@.map_values(|x: JsonValue| answer_spec(x)),
        Some(other) => seq![
            DnsAnswerView {
                value: match value_string_spec(other) {
                    Some(t) => t,
                    None => bounded_json_spec(other),
                },
                record_type: None,
                ttl: None,
                raw_detail: Some(bounded_json_spec(other)),
            },
        ],
        None => Seq::empty(),
    }
}

pub open spec fn answer_views(a: Seq<DnsAnswer>) -> Seq<DnsAnswerView> {
    a.map_values(|x: DnsAnswer| x@)
}

fn answer_of(item: &JsonValue) -> (r: DnsAnswer)
    ensures
        r@ == answer_spec(*item),
{
    match item {
        JsonValue::String(s) => DnsAnswer { value: s.clone(), record_type: None, ttl: None, raw_detail: None },
        _ => {
            let value_names = ["Value", "Data", "Target", "value"];
            let type_names = ["Type", "type"];
            let ttl_names = ["TTL", "Ttl", "ttl"];
            proof {
                assert(names_view(value_names@) =~= seq!["Value"@, "Data"@, "Target"@, "value"@]);
                assert(names_view(type_names@) =~= seq!["Type"@, "type"@]);
                assert(names_view(ttl_names@) =~= seq!["TTL"@, "Ttl"@, "ttl"@]);
            }
            let value = match first_string(item, &value_names) {
                Some(t) => t,
                None => bounded_json(item),
            };
            DnsAnswer {
                value,
                record_type: first_string(item, &type_names),
                ttl: first_u64(item, &ttl_names),
                raw_detail: Some(bounded_json(item)),
            }
        },
    }
}

/// The answers of a DNS query report (see `answers_spec`).
pub fn parse_answers(v: Option<&JsonValue>) -> (r: Vec<DnsAnswer>)
    ensures
        answer_views(r@) == answers_spec(opt_ref(v)),
{
    let mut out: Vec<DnsAnswer> = Vec::new();
    match v {
        Some(JsonValue::Array { items, .. }) => {
            let mut i: usize = 0;
            while i < items.len()
                invariant
                    i <= items@.len(),
                    answer_views(out@) == items@.take(i as int).map_values(|x: JsonValue| answer_spec(x)),
                decreases items.len() - i,
            {
                let ghost before = out@;
                out.push(answer_of(&items[i]));
                proof {
                    assert(answer_views(out@) =~= answer_views(before).push(answer_spec(items@[i as int])));
                    assert(items@.take(i + 1).map_values(|x: JsonValue| answer_spec(x)) =~= items@.take(
                        i as int,
                    ).map_values(|x: JsonValue| answer_spec(x)).push(answer_spec(items@[i as int])));
                }
                i = i + 1;
            }
            proof {
                assert(items@.take(items@.len() as int) =~= items@);
            }
            out
        },
        Some(other) => {
            let value = match value_string(other) {
                Some(t) => t,
                None => bounded_json(other),
            };
            out.push(DnsAnswer { value, record_type: None, ttl: None, raw_detail: Some(bounded_json(other)) });
            proof {
                assert(answer_views(out@) =~= answers_spec(opt_ref(v)));
            }
            out
        },
        None => {
            proof {
                assert(answer_views(out@) =~= Seq::<DnsAnswerView>::empty());
            }
            out
        },
    }
}

/// `q` is what a DNS query report `v` for `name` and `record_type` says,
/// read at `at`. Without a result field the result is `empty` where there is
/// no answer and `success` otherwise.
pub open spec fn dns_query_matches(
    q: DnsQueryResult,
    v: JsonValue,
    name: Seq<char>,
    record_type: DnsRecordType,
    at: Timestamp,
) -> bool {
    let answers = answers_spec(lookup(v, seq!["Answers"@, "Answer"@, "answers"@]));
    &&& q.name@ == name
    &&& q.record_type@ == record_type.label_spec()
    &&& answer_views(q.answers@) == answers
    &&& views(q.resolvers@) == parse_strings_spec(lookup(v, seq!["Resolvers"@, "Resolver"@]))
    &&& q.latency_ms == first_latency_spec(v, seq!["Latency"@, "LatencyMs"@, "latencyMs"@])
    &&& q.result_class@ == match first_string_spec(v, seq!["Result"@, "Status"@, "RCode"@, "rcode"@]) {
        Some(t) => t,
        None => if answers.len() == 0 {
            "empty"@
        } else {
            "success"@
        },
    }
    &&& q.observed_at == at
    &&& q.raw_detail@ == bounded_json_spec(v)
}

/// What `tailscale dns query --json` reports for `name` and `record_type`,
/// read at `observed_at`. `parsed` is the output read as JSON, or the
/// parser's message.
pub fn parse_dns_query(
    parsed: &Result<JsonValue, String>,
    name: String,
    record_type: DnsRecordType,
    observed_at: Timestamp,
) -> (r: Result<DnsQueryResult, String>)
    ensures
        match parsed {
            Err(m) => r matches Err(e) && e@ == "invalid DNS query JSON: "@ + m@,
            Ok(v) => r matches Ok(q) && dns_query_matches(q, *v, name@, record_type, observed_at),
        },
{
    let value = match parsed {
        Err(m) => {
            let mut d = chars_of("invalid DNS query JSON: ");
            append_str(&mut d, m.as_str());
            return Err(string_from_chars(&d));
        },
        Ok(v) => v,
    };
    let answer_names = ["Answers", "Answer", "answers"];
    let result_names = ["Result", "Status", "RCode", "rcode"];
    let resolver_names = ["Resolvers", "Resolver"];
    let latency_names = ["Latency", "LatencyMs", "latencyMs"];
    proof {
        assert(names_view(answer_names@) =~= seq!["Answers"@, "Answer"@, "answers"@]);
        assert(names_view(result_names@) =~= seq!["Result"@, "Status"@, "RCode"@, "rcode"@]);
        assert(names_view(resolver_names@) =~= seq!["Resolvers"@, "Resolver"@]);
        assert(names_view(latency_names@) =~= seq!["Latency"@, "LatencyMs"@, "latencyMs"@]);
    }
    let answers = parse_answers(lookup_field(value, &answer_names));
    let result_class = match first_string(value, &result_names) {
        Some(t) => t,
        None => if answers.len() == 0 {
            "empty".to_owned()
        } else {
            "success".to_owned()
        },
    };
    Ok(DnsQueryResult {
        name,
        record_type: record_type.label().to_owned(),
        answers,
        resolvers: parse_strings(lookup_field(value, &resolver_names)),
        latency_ms: crate::local::json_fields::first_latency(value, &latency_names),
        result_class,
        observed_at,
        raw_detail: bounded_json(value),
    })
}

pub open spec fn machine_spec(v: JsonValue) -> Option<JsonValue> {
    lookup(v, seq!["Machine"@, "Node"@, "machine"@])
}

/// A string read from the machine object where it has one, else from the
/// top of the report.
pub open spec fn machine_or_top(
    v: JsonValue,
    in_machine: Seq<Seq<char>>,
    at_top: Seq<Seq<char>>,
) -> Option<Seq<char>> {
    match machine_spec(v) {
        Some(m) => match first_string_spec(m, in_machine) {
            Some(t) => Some(t),
            None => first_string_spec(v, at_top),
        },
        None => first_string_spec(v, at_top),
    }
}

pub open spec fn machine_list(v: JsonValue, names: Seq<Seq<char>>) -> Seq<Seq<char>> {
    match machine_spec(v) {
        Some(m) => parse_strings_spec(lookup(m, names)),
        None => Seq::empty(),
    }
}

/// `w` is what a whois report `v` for `query` says, read at `at`.
pub open spec fn whois_matches(w: WhoisResult, v: JsonValue, query: Seq<char>, at: Timestamp) -> bool {
    &&& w.query@ == query
    &&& opt_view(w.machine_id) == machine_or_top(v, seq!["ID"@, "Id"@, "NodeID"@], seq!["ID"@, "NodeID"@])
    &&& opt_view(w.machine_name) == machine_or_top(
        v,
        seq!["Name"@, "HostName"@, "DNSName"@],
        seq!["Name"@, "HostName"@, "DNSName"@],
    )
    &&& views(w.addresses@) == machine_list(v, seq!["Addresses"@, "TailscaleIPs"@, "IPs"@])
    &&& views(w.tags@) == machine_list(v, seq!["Tags"@])
    &&& opt_view(w.user_identity) == first_string_spec(v, seq!["User"@, "UserName"@, "LoginName"@, "Email"@])
    &&& views(w.capabilities@) == parse_strings_spec(lookup(v, seq!["Capabilities"@, "capabilities"@]))
    &&& w.observed_at == at
    &&& w.raw_detail@ == bounded_json_spec(v)
}

/// What `tailscale whois --json` reports for `query`, read at
/// `observed_at`. `parsed` is the output read as JSON, or the parser's
/// message.
pub fn parse_whois(parsed: &Result<JsonValue, String>, query: String, observed_at: Timestamp) -> (r:
    Result<WhoisResult, String>)
    ensures
        match parsed {
            Err(m) => r matches Err(e) && e@ == "invalid whois JSON: "@ + m@,
            Ok(v) => r matches Ok(w) && whois_matches(w, *v, query@, observed_at),
        },
{
    let value = match parsed {
        Err(m) => {
            let mut d = chars_of("invalid whois JSON: ");
            append_str(&mut d, m.as_str());
            return Err(string_from_chars(&d));
        },
        Ok(v) => v,
    };
    let machine_names = ["Machine", "Node", "machine"];
    let id_names = ["ID", "Id", "NodeID"];
    let top_id_names = ["ID", "NodeID"];
    let name_names = ["Name", "HostName", "DNSName"];
    let address_names = ["Addresses", "TailscaleIPs", "IPs"];
    let tag_names = ["Tags"];
    let user_names = ["User", "UserName", "LoginName", "Email"];
    let capability_names = ["Capabilities", "capabilities"];
    proof {
        assert(names_view(machine_names@) =~= seq!["Machine"@, "Node"@, "machine"@]);
        assert(names_view(id_names@) =~= seq!["ID"@, "Id"@, "NodeID"@]);
        assert(names_view(top_id_names@) =~= seq!["ID"@, "NodeID"@]);
        assert(names_view(name_names@) =~= seq!["Name"@, "HostName"@, "DNSName"@]);
        assert(names_view(address_names@) =~= seq!["Addresses"@, "TailscaleIPs"@, "IPs"@]);
        assert(names_view(tag_names@) =~= seq!["Tags"@]);
        assert(names_view(user_names@) =~= seq!["User"@, "UserName"@, "LoginName"@, "Email"@]);
        assert(names_view(capability_names@) =~= seq!["Capabilities"@, "capabilities"@]);
    }
    let machine = lookup_field(value, &machine_names);
    let machine_id = match machine {
        Some(m) => match first_string(m, &id_names) {
            Some(t) => Some(t),
            None => first_string(value, &top_id_names),
        },
        None => first_string(value, &top_id_names),
    };
    let machine_name = match machine {
        Some(m) => match first_string(m, &name_names) {
            Some(t) => Some(t),
            None => first_string(value, &name_names),
        },
        None => first_string(value, &name_names),
    };
    let (addresses, tags) = match machine {
        Some(m) => (parse_strings(lookup_field(m, &address_names)), parse_strings(lookup_field(m, &tag_names))),
        None => (Vec::new(), Vec::new()),
    };
    proof {
        if machine is None {
            assert(views(addresses@) =~= Seq::<Seq<char>>::empty());
            assert(views(tags@) =~= Seq::<Seq<char>>::empty());
        }
    }
    Ok(WhoisResult {
        query,
        machine_id,
        machine_name,
        addresses,
        tags,
        user_identity: first_string(value, &user_names),
        capabilities: parse_strings(lookup_field(value, &capability_names)),
        observed_at,
        raw_detail: bounded_json(value),
    })
}

/// One region of a latency object: an object is read for its name and
/// latency, a number is the latency itself.
pub open spec fn derp_entry(region: Seq<char>, v: JsonValue) -> DerpLatencyView {
    let from_object = if v is Object {
        first_latency_spec(v, seq!["Latency"@, "LatencyMs"@, "latencyMs"@])
    } else {
        None
    };
    DerpLatencyView {
        region_code: region,
        region_name: if v is Object {
            first_string_spec(v, seq!["Name"@, "RegionName"@, "name"@])
        } else {
            None
        },
        latency_ms: match from_object {
            Some(n) => Some(n),
            None => match v {
                JsonValue::Number { millis, .. } => millis,
                _ => None,
            },
        },
    }
}

pub open spec fn derp_spec(v: Option<JsonValue>) -> Seq<DerpLatencyView> {
    match v {
        Some(JsonValue::Object { entries, .. }) => entries@.map_values(
            |e: (String, JsonValue)| derp_entry(e.0@, e.1),
        ),
        _ => Seq::empty(),
    }
}

/// No latency comes before any latency; latencies compare as numbers.
pub open spec fn latency_lt(a: Option<u64>, b: Option<u64>) -> bool {
    match (a, b) {
        (None, Some(_)) => true,
        (Some(x), Some(y)) => x < y,
        _ => false,
    }
}

/// Lower latency first, then region code.
pub open spec fn derp_before(a: DerpLatencyView, b: DerpLatencyView) -> bool {
    latency_lt(a.latency_ms, b.latency_ms) || (a.latency_ms == b.latency_ms && chars_lt(
        a.region_code,
        b.region_code,
    ))
}

/// Where `x` goes in `sorted`: after every region that `x` does not come
/// before.
pub open spec fn derp_position(sorted: Seq<DerpLatencyView>, x: DerpLatencyView) -> int
    decreases sorted.len(),
{
    if sorted.len() == 0 {
        0
    } else if derp_before(x, sorted.last()) {
        derp_position(sorted.drop_last(), x)
    } else {
        sorted.len() as int
    }
}

/// The regions sorted by `derp_before`, regions that tie in their first
/// order (a stable sort).
pub open spec fn sorted_derp(regions: Seq<DerpLatencyView>) -> Seq<DerpLatencyView>
    decreases regions.len(),
{
    if regions.len() == 0 {
        Seq::empty()
    } else {
        let rest = sorted_derp(regions.drop_last());
        rest.insert(derp_position(rest, regions.last()), regions.last())
    }
}

proof fn lemma_derp_position_bound(sorted: Seq<DerpLatencyView>, x: DerpLatencyView)
    ensures
        0 <= derp_position(sorted, x) <= sorted.len(),
    decreases sorted.len(),
{
    if sorted.len() > 0 {
        lemma_derp_position_bound(sorted.drop_last(), x);
    }
}

pub open spec fn derp_views(d: Seq<DerpLatency>) -> Seq<DerpLatencyView> {
    d.map_values(|x: DerpLatency| x@)
}

fn derp_before_exec(a: &DerpLatency, b: &DerpLatency) -> (r: bool)
    ensures
        r == derp_before(a@, b@),
{
    let lt = match (a.latency_ms, b.latency_ms) {
        (None, Some(_)) => true,
        (Some(x), Some(y)) => x < y,
        _ => false,
    };
    if lt {
        return true;
    }
    if a.latency_ms != b.latency_ms {
        return false;
    }
    chars_less(&chars_of(a.region_code.as_str()), &chars_of(b.region_code.as_str()))
}

fn derp_of(region: &String, v: &JsonValue) -> (r: DerpLatency)
    ensures
        r@ == derp_entry(region@, *v),
{
    let name_names = ["Name", "RegionName", "name"];
    let latency_names = ["Latency", "LatencyMs", "latencyMs"];
    proof {
        assert(names_view(name_names@) =~= seq!["Name"@, "RegionName"@, "name"@]);
        assert(names_view(latency_names@) =~= seq!["Latency"@, "LatencyMs"@, "latencyMs"@]);
    }
    let is_object = matches!(v, JsonValue::Object { .. });
    let region_name = if is_object {
        first_string(v, &name_names)
    } else {
        None
    };
    let from_object = if is_object {
        crate::local::json_fields::first_latency(v, &latency_names)
    } else {
        None
    };
    let latency_ms = match from_object {
        Some(n) => Some(n),
        None => match v {
            JsonValue::Number { millis, .. } => *millis,
            _ => None,
        },
    };
    DerpLatency { region_code: region.clone(), region_name, latency_ms }
}

/// The regions of a latency object, lowest latency first (see `sorted_derp`).
pub fn parse_derp_latency(v: Option<&JsonValue>) -> (r: Vec<DerpLatency>)
    ensures
        derp_views(r@) == sorted_derp(derp_spec(opt_ref(v))),
{
    let mut out: Vec<DerpLatency> = Vec::new();
    let entries = match v {
        Some(JsonValue::Object { entries, .. }) => entries,
        _ => {
            proof {
                assert(derp_views(out@) =~= Seq::<DerpLatencyView>::empty());
            }
            return out;
        },
    };
    let ghost all = entries@.map_values(|e: (String, JsonValue)| derp_entry(e.0@, e.1));
    let mut i: usize = 0;
    proof {
        assert(all.take(0) =~= Seq::<DerpLatencyView>::empty());
        assert(derp_views(out@) =~= Seq::<DerpLatencyView>::empty());
    }
    while i < entries.len()
        invariant
            i <= entries@.len(),
            all == entries@.map_values(|e: (String, JsonValue)| derp_entry(e.0@, e.1)),
            derp_views(out@) == sorted_derp(all.take(i as int)),
        decreases entries.len() - i,
    {
        let x = derp_of(&entries[i].0, &entries[i].1);
        let ghost ov = derp_views(out@);
        proof {
            assert(all.take(i + 1).drop_last() =~= all.take(i as int));
            assert(all.take(i + 1).last() == x@);
        }
        let mut k: usize = out.len();
        proof {
            assert(ov.take(ov.len() as int) =~= ov);
        }
        while k > 0 && derp_before_exec(&x, &out[k - 1])
            invariant
                k <= out@.len(),
                ov == derp_views(out@),
                derp_position(ov, x@) == derp_position(ov.take(k as int), x@),
            decreases k,
        {
            proof {
                assert(ov.take(k as int).drop_last() =~= ov.take(k - 1));
                assert(ov.take(k as int).last() == out@[k - 1]@);
            }
            k = k - 1;
        }
        proof {
            assert(ov.take(ov.len() as int) =~= ov);
            if k > 0 {
                assert(ov.take(k as int).last() == out@[k - 1]@);
            }
            assert(derp_position(ov.take(k as int), x@) == k);
            lemma_derp_position_bound(ov, x@);
        }
        out.insert(k, x);
        proof {
            assert(derp_views(out@) =~= ov.insert(k as int, x@));
        }
        i = i + 1;
    }
    proof {
        assert(all.take(entries@.len() as int) =~= all);
    }
    out
}

pub open spec fn address_field_names() -> Seq<Seq<char>> {
    seq!["IPv4"@, "IPv6"@, "IPv4Address"@, "IPv6Address"@, "PublicIP"@, "PublicIPv4"@, "PublicIPv6"@]
}

/// The addresses listed under each of `names` in turn, each address once.
pub open spec fn addresses_over(v: JsonValue, names: Seq<Seq<char>>) -> Seq<Seq<char>>
    decreases names.len(),
{
    if names.len() == 0 {
        Seq::empty()
    } else {
        add_new(addresses_over(v, names.drop_last()), parse_strings_spec(lookup(v, seq![names.last()])))
    }
}

/// The public addresses that a netcheck report names, each once.
pub fn parse_address_fields(v: &JsonValue) -> (r: Vec<String>)
    ensures
        views(r@) == addresses_over(*v, address_field_names()),
{
    let names = ["IPv4", "IPv6", "IPv4Address", "IPv6Address", "PublicIP", "PublicIPv4", "PublicIPv6"];
    let ghost all = names_view(names@);
    proof {
        assert(all =~= address_field_names());
    }
    let mut out: Vec<String> = Vec::new();
    let mut i: usize = 0;
    proof {
        assert(all.take(0) =~= Seq::<Seq<char>>::empty());
        assert(views(out@) =~= Seq::<Seq<char>>::empty());
    }
    while i < names.len()
        invariant
            i <= names@.len(),
            all == names_view(names@),
            views(out@) == addresses_over(*v, all.take(i as int)),
        decreases names.len() - i,
    {
        let one = [names[i]];
        proof {
            assert(names_view(one@) =~= seq![names@[i as int]@]);
            assert(all.take(i + 1).drop_last() =~= all.take(i as int));
            assert(all.take(i + 1).last() == names@[i as int]@);
        }
        let found = parse_strings(lookup_field(v, &one));
        push_new(&mut out, found);
        i = i + 1;
    }
    proof {
        assert(all.take(names@.len() as int) =~= all);
    }
    out
}

/// `o` is what a netcheck report `v` says, read at `at`.
pub open spec fn netcheck_matches(o: NetcheckObservation, v: JsonValue, at: Timestamp) -> bool {
    &&& o.udp == first_bool_spec(v, seq!["UDP"@, "Udp"@, "udp"@])
    &&& o.ipv4 == first_bool_spec(v, seq!["IPv4"@, "IPv4Available"@, "ipv4Available"@])
    &&& o.ipv6 == first_bool_spec(v, seq!["IPv6"@, "IPv6Available"@, "ipv6Available"@])
    &&& o.mapping_varies_by_destination == first_bool_spec(
        v,
        seq!["MappingVariesByDestIP"@, "MappingVariesByDestination"@, "mappingVariesByDestination"@],
    )
    &&& o.hairpinning == first_bool_spec(v, seq!["HairPinning"@, "Hairpinning"@, "hairpinning"@])
    &&& views(o.port_mapping@) == parse_strings_spec(
        lookup(v, seq!["PortMapping"@, "PortMappings"@, "portMapping"@]),
    )
    &&& opt_view(o.nearest_derp) == first_string_spec(v, seq!["NearestDERP"@, "PreferredDERP"@, "nearestDerp"@])
    &&& derp_views(o.derp_latency@) == sorted_derp(
        derp_spec(lookup(v, seq!["DERPLatency"@, "RegionLatency"@, "DerpLatency"@])),
    )
    &&& views(o.sensitive_addresses@) == addresses_over(v, address_field_names())
    &&& o.observed_at == Some(at)
}

/// A netcheck report read at `observed_at`; a report must be an object.
pub fn parse_netcheck_value(v: &JsonValue, observed_at: Timestamp) -> (r: Result<NetcheckObservation, String>)
    ensures
        if v is Object {
            r matches Ok(o) && netcheck_matches(o, *v, observed_at)
        } else {
            r matches Err(e) && e@ == "netcheck result was not an object"@
        },
{
    if !matches!(v, JsonValue::Object { .. }) {
        return Err("netcheck result was not an object".to_owned());
    }
    let udp = ["UDP", "Udp", "udp"];
    let ipv4 = ["IPv4", "IPv4Available", "ipv4Available"];
    let ipv6 = ["IPv6", "IPv6Available", "ipv6Available"];
    let mapping = ["MappingVariesByDestIP", "MappingVariesByDestination", "mappingVariesByDestination"];
    let hairpin = ["HairPinning", "Hairpinning", "hairpinning"];
    let ports = ["PortMapping", "PortMappings", "portMapping"];
    let nearest = ["NearestDERP", "PreferredDERP", "nearestDerp"];
    let derp = ["DERPLatency", "RegionLatency", "DerpLatency"];
    proof {
        assert(names_view(udp@) =~= seq!["UDP"@, "Udp"@, "udp"@]);
        assert(names_view(ipv4@) =~= seq!["IPv4"@, "IPv4Available"@, "ipv4Available"@]);
        assert(names_view(ipv6@) =~= seq!["IPv6"@, "IPv6Available"@, "ipv6Available"@]);
        assert(names_view(mapping@) =~= seq![
            "MappingVariesByDestIP"@,
            "MappingVariesByDestination"@,
            "mappingVariesByDestination"@,
        ]);
        assert(names_view(hairpin@) =~= seq!["HairPinning"@, "Hairpinning"@, "hairpinning"@]);
        assert(names_view(ports@) =~= seq!["PortMapping"@, "PortMappings"@, "portMapping"@]);
        assert(names_view(nearest@) =~= seq!["NearestDERP"@, "PreferredDERP"@, "nearestDerp"@]);
        assert(names_view(derp@) =~= seq!["DERPLatency"@, "RegionLatency"@, "DerpLatency"@]);
    }
    let derp_latency = parse_derp_latency(lookup_field(v, &derp));
    let sensitive_addresses = parse_address_fields(v);
    Ok(NetcheckObservation {
        udp: first_bool(v, &udp),
        ipv4: first_bool(v, &ipv4),
        ipv6: first_bool(v, &ipv6),
        mapping_varies_by_destination: first_bool(v, &mapping),
        hairpinning: first_bool(v, &hairpin),
        port_mapping: parse_strings(lookup_field(v, &ports)),
        nearest_derp: first_string(v, &nearest),
        derp_latency,
        sensitive_addresses,
        observed_at: Some(observed_at),
    })
}

/// The report of `tailscale netcheck --format=json`, read at `observed_at`.
/// `parsed` is the output read as JSON, or the parser's message.
pub fn parse_netcheck_json(parsed: &Result<JsonValue, String>, observed_at: Timestamp) -> (r: Result<
    NetcheckObservation,
    String,
>)
    ensures
        match parsed {
            Err(m) => r matches Err(e) && e@ == "invalid netcheck JSON: "@ + m@,
            Ok(v) => if v is Object {
                r matches Ok(o) && netcheck_matches(o, *v, observed_at)
            } else {
                r matches Err(e) && e@ == "netcheck result was not an object"@
            },
        },
{
    match parsed {
        Err(m) => {
            let mut d = chars_of("invalid netcheck JSON: ");
            append_str(&mut d, m.as_str());
            Err(string_from_chars(&d))
        },
        Ok(v) => parse_netcheck_value(v, observed_at),
    }
}

/// The complaints about each line of a streamed netcheck, in order.
pub open spec fn netcheck_line_errors(lines: Seq<Result<JsonValue, String>>) -> Seq<Seq<char>>
    decreases lines.len(),
{
    if lines.len() == 0 {
        Seq::empty()
    } else {
        let earlier = netcheck_line_errors(lines.drop_last());
        match lines.last() {
            Err(m) => earlier.push("invalid netcheck line: "@ + m@),
            Ok(v) => if v is Object {
                earlier
            } else {
                earlier.push("netcheck result was not an object"@)
            },
        }
    }
}

/// The last line that holds a report.
pub open spec fn last_report(lines: Seq<Result<JsonValue, String>>) -> Option<JsonValue>
    decreases lines.len(),
{
    if lines.len() == 0 {
        None
    } else {
        match lines.last() {
            Ok(v) => if v is Object {
                Some(v)
            } else {
                last_report(lines.drop_last())
            },
            Err(_) => last_report(lines.drop_last()),
        }
    }
}

/// The lines of `tailscale netcheck --format=json-line`, each read as JSON
/// or the parser's message: the last report, and what was wrong with the
/// lines that are not reports.
pub fn parse_netcheck_lines(lines: &Vec<Result<JsonValue, String>>, observed_at: Timestamp) -> (r: (
    Option<NetcheckObservation>,
    Vec<String>,
))
    ensures
        views(r.1@) == netcheck_line_errors(lines@),
        match last_report(lines@) {
            Some(v) => r.0 matches Some(o) && netcheck_matches(o, v, observed_at),
            None => r.0 is None,
        },
{
    let mut latest: Option<NetcheckObservation> = None;
    let mut errors: Vec<String> = Vec::new();
    let mut i: usize = 0;
    proof {
        assert(lines@.take(0) =~= Seq::<Result<JsonValue, String>>::empty());
        assert(views(errors@) =~= Seq::<Seq<char>>::empty());
    }
    while i < lines.len()
        invariant
            i <= lines@.len(),
            views(errors@) == netcheck_line_errors(lines@.take(i as int)),
            match last_report(lines@.take(i as int)) {
                Some(v) => latest matches Some(o) && netcheck_matches(o, v, observed_at),
                None => latest is None,
            },
        decreases lines.len() - i,
    {
        proof {
            assert(lines@.take(i + 1).drop_last() =~= lines@.take(i as int));
            assert(lines@.take(i + 1).last() == lines@[i as int]);
        }
        let ghost before = errors@;
        match &lines[i] {
            Ok(v) => match parse_netcheck_value(v, observed_at) {
                Ok(o) => {
                    latest = Some(o);
                },
                Err(e) => {
                    errors.push(e);
                    proof {
                        assert(views(errors@) =~= views(before).push("netcheck result was not an object"@));
                    }
                },
            },
            Err(m) => {
                let mut d = chars_of("invalid netcheck line: ");
                append_str(&mut d, m.as_str());
                errors.push(string_from_chars(&d));
                proof {
                    assert(views(errors@) =~= views(before).push("invalid netcheck line: "@ + m@));
                }
            },
        }
        i = i + 1;
    }
    proof {
        assert(lines@.take(lines@.len() as int) =~= lines@);
    }
    (latest, errors)
}

/// No region in `s` comes before one that stands ahead of it.
pub open spec fn derp_ordered(s: Seq<DerpLatencyView>) -> bool {
    forall|i: int, j: int| 0 <= i < j < s.len() ==> !derp_before(#[trigger] s[j], #[trigger] s[i])
}

proof fn lemma_derp_before_asymmetric(a: DerpLatencyView, b: DerpLatencyView)
    ensures
        derp_before(a, b) ==> !derp_before(b, a),
{
    lemma_chars_lt_total(a.region_code, b.region_code);
}

/// Not coming before is transitive: `a` not before `b`, `b` not before `c`,
/// so `a` not before `c`.
proof fn lemma_derp_not_before_transitive(a: DerpLatencyView, b: DerpLatencyView, c: DerpLatencyView)
    requires
        !derp_before(a, b),
        !derp_before(b, c),
    ensures
        !derp_before(a, c),
{
    lemma_chars_lt_total(a.region_code, b.region_code);
    lemma_chars_lt_total(b.region_code, c.region_code);
    lemma_chars_lt_total(a.region_code, c.region_code);
    if derp_before(a, c) {
        if a.latency_ms == c.latency_ms {
            if b.latency_ms == a.latency_ms {
                lemma_chars_lt_transitive(a.region_code, c.region_code, b.region_code);
            }
        }
    }
}

proof fn lemma_derp_position_facts(sorted: Seq<DerpLatencyView>, x: DerpLatencyView)
    ensures
        forall|k: int| derp_position(sorted, x) <= k < sorted.len() ==> derp_before(x, #[trigger] sorted[k]),
        derp_position(sorted, x) > 0 ==> !derp_before(x, sorted[derp_position(sorted, x) - 1]),
    decreases sorted.len(),
{
    lemma_derp_position_bound(sorted, x);
    if sorted.len() > 0 && derp_before(x, sorted.last()) {
        let rest = sorted.drop_last();
        lemma_derp_position_facts(rest, x);
        lemma_derp_position_bound(rest, x);
        assert forall|k: int| derp_position(sorted, x) <= k < sorted.len() implies derp_before(x, #[trigger] sorted[k]) by {
            if k < rest.len() {
                assert(sorted[k] == rest[k]);
            }
        }
        if derp_position(sorted, x) > 0 {
            assert(sorted[derp_position(sorted, x) - 1] == rest[derp_position(rest, x) - 1]);
        }
    }
}

/// The regions that `tailscale netcheck` reports come out ordered: lowest
/// latency first (no latency before any), ties by region code, with as many
/// regions as were read.
pub proof fn netcheck_regions_are_ordered(regions: Seq<DerpLatencyView>)
    ensures
        derp_ordered(sorted_derp(regions)),
        sorted_derp(regions).len() == regions.len(),
    decreases regions.len(),
{
    if regions.len() > 0 {
        let rest = sorted_derp(regions.drop_last());
        let x = regions.last();
        netcheck_regions_are_ordered(regions.drop_last());
        let p = derp_position(rest, x);
        lemma_derp_position_bound(rest, x);
        lemma_derp_position_facts(rest, x);
        let w = rest.insert(p, x);
        assert forall|i: int, j: int| 0 <= i < j < w.len() implies !derp_before(#[trigger] w[j], #[trigger] w[i]) by {
            if j < p {
                assert(w[i] == rest[i] && w[j] == rest[j]);
            } else if j == p {
                assert(w[i] == rest[i] && w[j] == x);
                if i < p - 1 {
                    lemma_derp_not_before_transitive(x, rest[p - 1], rest[i]);
                }
            } else if i < p {
                assert(w[i] == rest[i] && w[j] == rest[j - 1]);
            } else if i == p {
                assert(w[i] == x && w[j] == rest[j - 1]);
                lemma_derp_before_asymmetric(x, rest[j - 1]);
            } else {
                assert(w[i] == rest[i - 1] && w[j] == rest[j - 1]);
            }
        }
    }
}

/// How a reported yes-or-no reads in a summary.
pub open spec fn flag_text(v: Option<bool>) -> Seq<char> {
    match v {
        Some(true) => "true"@,
        Some(false) => "false"@,
        None => "not returned"@,
    }
}

fn flag_str(v: Option<bool>) -> (r: &'static str)
    ensures
        r@ == flag_text(v),
{
    match v {
        Some(true) => "true",
        Some(false) => "false",
        None => "not returned",
    }
}

/// The one-line summary of a netcheck report.
pub open spec fn netcheck_summary(v: NetcheckObservation) -> Seq<char> {
    "netcheck: udp="@ + flag_text(v.udp) + " ipv4="@ + flag_text(v.ipv4) + " ipv6="@ + flag_text(v.ipv6)
        + " nearest-derp="@ + match opt_view(v.nearest_derp) {
        Some(s) => s,
        None => "not returned"@,
    } + " regions="@ + decimal(v.derp_latency@.len())
}

/// The one-line summary of a netcheck report: what UDP, IPv4 and IPv6
/// looked like, the nearest DERP region and how many regions answered.
pub fn format_netcheck_summary(value: &NetcheckObservation) -> (r: String)
    ensures
        r@ == netcheck_summary(*value),
{
    let mut v = chars_of("netcheck: udp=");
    append_str(&mut v, flag_str(value.udp));
    append_str(&mut v, " ipv4=");
    append_str(&mut v, flag_str(value.ipv4));
    append_str(&mut v, " ipv6=");
    append_str(&mut v, flag_str(value.ipv6));
    append_str(&mut v, " nearest-derp=");
    match &value.nearest_derp {
        Some(s) => append_str(&mut v, s.as_str()),
        None => append_str(&mut v, "not returned"),
    }
    append_str(&mut v, " regions=");
    let n = format_u64(value.derp_latency.len() as u64);
    crate::text::append_chars(&mut v, &n);
    string_from_chars(&v)
}

/// An IP address by its bits, as `u32::from(Ipv4Addr)` and
/// `u128::from(Ipv6Addr)` give them.
#[derive(Debug, Clone, Copy, PartialEq, Eq, Structural)]
pub enum IpAddress {
    V4(u32),
    V6(u128),
}

/// A whois target that names an address, with a port where it gave one.
#[derive(Debug, Clone, PartialEq, Eq)]
pub struct ValidatedWhois {
    pub target: String,
    pub address: IpAddress,
    pub port: Option<u16>,
}

/// Checks a whois target. `socket` is the target read as a socket address
/// (`SocketAddr`'s `FromStr`) and `address` the target read as an IP address
/// (`IpAddr`'s `FromStr`), where they read. A target with white space, or an
/// empty one, is refused first; then a socket address wins over a bare
/// address.
pub fn validate_whois_target(value: &str, socket: Option<(IpAddress, u16)>, address: Option<IpAddress>) -> (r: Result<
    ValidatedWhois,
    String,
>)
    ensures
        value@.len() == 0 || has_ws(value@) ==> (r matches Err(e) && e@
            == "whois target must be an IP address or IP address with port"@),
        !(value@.len() == 0 || has_ws(value@)) ==> match socket {
            Some((ip, port)) => r matches Ok(w) && w.target@ == value@ && w.address == ip && w.port == Some(port),
            None => match address {
                Some(ip) => r matches Ok(w) && w.target@ == value@ && w.address == ip && w.port is None,
                None => r matches Err(e) && e@ == "whois target is not a valid IP address or socket address"@,
            },
        },
{
    let chars = chars_of(value);
    if chars.len() == 0 || any_whitespace(&chars) {
        return Err("whois target must be an IP address or IP address with port".to_owned());
    }
    match socket {
        Some((ip, port)) => Ok(ValidatedWhois { target: value.to_owned(), address: ip, port: Some(port) }),
        None => match address {
            Some(ip) => Ok(ValidatedWhois { target: value.to_owned(), address: ip, port: None }),
            None => Err("whois target is not a valid IP address or socket address".to_owned()),
        },
    }
}

proof fn lemma_lower_char_idempotent(c: char)
    ensures
        lower_char(lower_char(c)) == lower_char(c),
{
    if 'A' <= c && c <= 'Z' {
        assert((c as u32) + 32 <= 0x7f);
        assert(((c as u32) + 32) as char as u32 == (c as u32) + 32);
    }
}

/// Every record type reads back from its label, in upper or lower case, and
/// no two record types share a label.
pub proof fn record_type_labels_read_back(t: DnsRecordType, u: DnsRecordType)
    ensures
        DnsRecordType::parse_spec(t.label_spec()) == Some(t),
        DnsRecordType::parse_spec(lower_seq(t.label_spec())) == Some(t),
        t.label_spec() == u.label_spec() ==> t == u,
{
    reveal_strlit("A");
    reveal_strlit("AAAA");
    reveal_strlit("CNAME");
    reveal_strlit("MX");
    reveal_strlit("NS");
    reveal_strlit("PTR");
    reveal_strlit("SRV");
    reveal_strlit("TXT");
    assert forall|c: char| #[trigger] lower_char(lower_char(c)) == lower_char(c) by {
        lemma_lower_char_idempotent(c);
    }
    let l = t.label_spec();
    assert(lower_seq(lower_seq(l)) =~= lower_seq(l));
    assert(lower_seq("A"@)[0] != lower_seq("AAAA"@)[0] || lower_seq("A"@).len() != lower_seq("AAAA"@).len());
    assert(lower_seq("MX"@)[0] != lower_seq("NS"@)[0]);
    assert(lower_seq("PTR"@)[0] != lower_seq("SRV"@)[0]);
    assert(lower_seq("PTR"@)[0] != lower_seq("TXT"@)[0]);
    assert(lower_seq("SRV"@)[0] != lower_seq("TXT"@)[0]);
}

/// The path a reply line names, read in any ASCII case: a line that
/// mentions `peer-relay` or `peer relay` went through a peer relay, named by
/// what follows `via`, and is never read as direct or through DERP; a line
/// that mentions DERP and no peer relay went through the DERP region named
/// after `derp`; a line that mentions neither but says `direct`, or names an
/// endpoint after `via`, was direct; any other line names no path.
pub proof fn ping_paths_follow_the_words(t: Seq<char>)
    ensures
        (seq_contains(lower_seq(t), "peer-relay"@) || seq_contains(lower_seq(t), "peer relay"@))
            ==> ping_path_spec(t) == (DiagnosticPathView::PeerRelay { peer: value_after_spec(t, "via"@) }),
        (seq_contains(lower_seq(t), "peer-relay"@) || seq_contains(lower_seq(t), "peer relay"@))
            ==> !(ping_path_spec(t) is Direct) && !(ping_path_spec(t) is Derp),
        !seq_contains(lower_seq(t), "peer-relay"@) && !seq_contains(lower_seq(t), "peer relay"@)
            && seq_contains(lower_seq(t), "derp"@) ==> ping_path_spec(t)
            == (DiagnosticPathView::Derp { region: value_after_spec(t, "derp"@) }),
        !seq_contains(lower_seq(t), "peer-relay"@) && !seq_contains(lower_seq(t), "peer relay"@)
            && !seq_contains(lower_seq(t), "derp"@) ==> ping_path_spec(t) == (if seq_contains(lower_seq(t), "direct"@)
            || value_after_spec(t, "via"@) is Some {
            DiagnosticPathView::Direct
        } else {
            DiagnosticPathView::Unknown
        }),
{
}

/// The latency of a reply is that of its first token that reads as one: no
/// token before it reads as a latency, and there is none exactly when no
/// token does.
pub proof fn latency_is_the_first_reading(tokens: Seq<Seq<char>>)
    ensures
        first_latency(tokens) is None <==> forall|j: int| 0 <= j < tokens.len() ==> #[trigger] latency_token_spec(tokens[j]) is None,
        first_latency(tokens) matches Some(v) ==> exists|i: int| 0 <= i < tokens.len()
            && #[trigger] latency_token_spec(tokens[i]) == Some(v)
            && forall|j: int| 0 <= j < i ==> latency_token_spec(tokens[j]) is None,
    decreases tokens.len(),
{
    if tokens.len() > 0 {
        let rest = tokens.drop_first();
        latency_is_the_first_reading(rest);
        assert forall|j: int| 0 <= j < rest.len() implies rest[j] == tokens[j + 1] by {}
        if latency_token_spec(tokens[0]) is None {
            if first_latency(tokens) is None {
                assert forall|j: int| 0 <= j < tokens.len() implies #[trigger] latency_token_spec(tokens[j]) is None by {
                    if j > 0 {
                        assert(latency_token_spec(rest[j - 1]) is None);
                    }
                }
            } else {
                let v = first_latency(tokens)->0;
                let i = choose|i: int| 0 <= i < rest.len() && #[trigger] latency_token_spec(rest[i]) == Some(v)
                    && forall|j: int| 0 <= j < i ==> latency_token_spec(rest[j]) is None;
                assert(latency_token_spec(tokens[i + 1]) == Some(v));
                assert forall|j: int| 0 <= j < i + 1 implies latency_token_spec(tokens[j]) is None by {
                    if j > 0 {
                        assert(latency_token_spec(rest[j - 1]) is None);
                    }
                }
                assert(!(forall|j: int| 0 <= j < tokens.len() ==> #[trigger] latency_token_spec(tokens[j]) is None));
            }
        } else {
            assert(latency_token_spec(tokens[0]) is Some);
        }
    }
}

} // verus!

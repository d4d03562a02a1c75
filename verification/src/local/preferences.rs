//! Preferences read from the local daemon's HTTP API and changed through
//! `tailscale set`.
use vstd::prelude::*;
use vstd::utf8::{decode_utf8 as utf8_text, valid_utf8};

use crate::domain::{opt_view, ExitNodeRequest, ExitNodeSelection, PreferenceRequest, TargetOs};
use crate::local::client::{self, empty_text_field, exit_node_words, set_words, HostPlatform};
use crate::local::process::{is_new_command, IoErrorKind, LocalCommand, LocalOperation};
use crate::numbers::{parse_unsigned, parse_unsigned_spec};
use crate::text::{
    append_str, ascii_bytes, ascii_to_bytes, ascii_tokens_of, chars_eq_str, chars_of, lines, lines_of,
    split_ascii_whitespace, string_from_chars,
};

verus! {

pub const LOCAL_API_PATH: &'static str = "/localapi/v0/prefs";

pub const LOCAL_API_HOST: &'static str = "local-tailscaled.sock";

pub const COMPATIBILITY_VERSION: &'static str = "1.98.9";

pub const COMPATIBILITY_CAPABILITY: &'static str = "138";

/// A response from the preference endpoint is never more than this many bytes.
pub const MAX_RESPONSE_BYTES: usize = 524288;

#[derive(Debug, Clone, Copy, PartialEq, Eq, Structural)]
pub enum PreferencePlatform {
    Linux,
    MacOS,
    Windows,
}

impl PreferencePlatform {
    /// The platform for the operating system Tale runs on.
    pub fn current(os: TargetOs) -> (r: Self)
        ensures
            r == (match os {
                TargetOs::Windows => PreferencePlatform::Windows,
                TargetOs::MacOS => PreferencePlatform::MacOS,
                _ => PreferencePlatform::Linux,
            }),
    {
        match os {
            TargetOs::Windows => PreferencePlatform::Windows,
            TargetOs::MacOS => PreferencePlatform::MacOS,
            _ => PreferencePlatform::Linux,
        }
    }

    /// The platform for a host family, on the operating system Tale runs on:
    /// a Unix host is macOS only when Tale runs on macOS.
    pub fn from_host(platform: HostPlatform, os: TargetOs) -> (r: Self)
        ensures
            r == (match platform {
                HostPlatform::Windows => PreferencePlatform::Windows,
                HostPlatform::Unix => if os == TargetOs::MacOS {
                    PreferencePlatform::MacOS
                } else {
                    PreferencePlatform::Linux
                },
            }),
    {
        match platform {
            HostPlatform::Windows => PreferencePlatform::Windows,
            HostPlatform::Unix => {
                if os == TargetOs::MacOS {
                    PreferencePlatform::MacOS
                } else {
                    PreferencePlatform::Linux
                }
            },
        }
    }

    pub open spec fn label_spec(self) -> Seq<char> {
        match self {
            PreferencePlatform::Linux => "linux"@,
            PreferencePlatform::MacOS => "macOS standalone"@,
            PreferencePlatform::Windows => "windows"@,
        }
    }

    pub fn label(self) -> (r: &'static str)
        ensures
            r@ == self.label_spec(),
    {
        match self {
            PreferencePlatform::Linux => "linux",
            PreferencePlatform::MacOS => "macOS standalone",
            PreferencePlatform::Windows => "windows",
        }
    }
}

pub open spec fn socket_path_spec(platform: PreferencePlatform) -> Seq<char> {
    match platform {
        PreferencePlatform::Linux => "/var/run/tailscale/tailscaled.sock"@,
        PreferencePlatform::MacOS => "/var/run/tailscaled.socket"@,
        PreferencePlatform::Windows => "\\\\.\\pipe\\ProtectedPrefix\\Administrators\\Tailscale\\tailscaled"@,
    }
}

/// Where the daemon listens by default on each platform.
pub fn documented_socket_path(platform: PreferencePlatform) -> (r: String)
    ensures
        r@ == socket_path_spec(platform),
{
    match platform {
        PreferencePlatform::Linux => "/var/run/tailscale/tailscaled.sock".to_owned(),
        PreferencePlatform::MacOS => "/var/run/tailscaled.socket".to_owned(),
        PreferencePlatform::Windows => "\\\\.\\pipe\\ProtectedPrefix\\Administrators\\Tailscale\\tailscaled".to_owned(),
    }
}

pub fn local_api_path() -> (r: &'static str)
    ensures
        r@ == LOCAL_API_PATH@,
{
    LOCAL_API_PATH
}

pub fn local_api_host() -> (r: &'static str)
    ensures
        r@ == LOCAL_API_HOST@,
{
    LOCAL_API_HOST
}

#[derive(Debug, Clone, PartialEq, Eq)]
pub enum PreferenceCommandError {
    EmptyRequest,
    MissingMacAppConnectorRisk,
    UnexpectedMacAppConnectorRisk,
    EmptyText { field: String },
}

/// The same error, in this module's terms.
pub fn command_error(e: client::PreferenceCommandError) -> (r: PreferenceCommandError)
    ensures
        match e {
            client::PreferenceCommandError::EmptyRequest => r == PreferenceCommandError::EmptyRequest,
            client::PreferenceCommandError::MissingMacAppConnectorRisk => r
                == PreferenceCommandError::MissingMacAppConnectorRisk,
            client::PreferenceCommandError::UnexpectedMacAppConnectorRisk => r
                == PreferenceCommandError::UnexpectedMacAppConnectorRisk,
            client::PreferenceCommandError::EmptyText { field } => r
                == PreferenceCommandError::EmptyText { field },
        },
{
    match e {
        client::PreferenceCommandError::EmptyRequest => PreferenceCommandError::EmptyRequest,
        client::PreferenceCommandError::MissingMacAppConnectorRisk => PreferenceCommandError::MissingMacAppConnectorRisk,
        client::PreferenceCommandError::UnexpectedMacAppConnectorRisk => PreferenceCommandError::UnexpectedMacAppConnectorRisk,
        client::PreferenceCommandError::EmptyText { field } => PreferenceCommandError::EmptyText { field },
    }
}

/// The `tailscale set` command for a preference request.
pub fn set_command(path: &str, timeout_ms: u64, request: &PreferenceRequest) -> (r: Result<
    LocalCommand,
    PreferenceCommandError,
>)
    ensures
        request.is_empty_spec() ==> r == Err::<LocalCommand, PreferenceCommandError>(
            PreferenceCommandError::EmptyRequest,
        ),
        !request.is_empty_spec() && empty_text_field(*request) is Some ==> r is Err && r->Err_0 is EmptyText
            && r->Err_0->EmptyText_field@ == empty_text_field(*request)->0,
        !request.is_empty_spec() && empty_text_field(*request) is None ==> r is Ok && is_new_command(
            r->Ok_0,
            path@,
            LocalOperation::SetPrefs,
            set_words(*request),
        ) && r->Ok_0.timeout_ms == Some(timeout_ms),
{
    match client::set_command(path, timeout_ms, request) {
        Ok(c) => Ok(c),
        Err(e) => Err(command_error(e)),
    }
}

/// The `tailscale set` command that selects an exit node.
pub fn exit_node_command(path: &str, timeout_ms: u64, request: &ExitNodeRequest) -> (r: LocalCommand)
    ensures
        is_new_command(r, path@, LocalOperation::SetPrefs, exit_node_words(*request)),
        r.timeout_ms == Some(timeout_ms),
{
    client::exit_node_command(path, timeout_ms, request)
}

#[derive(Debug, Clone, PartialEq, Eq)]
pub enum PreferenceError {
    UnsupportedPlatform { platform: String },
    UnsupportedVersion { expected: String, actual: String },
    Connection { detail: String },
    TimedOut,
    Cancelled,
    PermissionDenied,
    HttpStatus { status: u16 },
    InvalidResponse { detail: String },
    InvalidJson { detail: String },
}

impl PreferenceError {
    pub open spec fn operation_spec(&self) -> Seq<char> {
        match self {
            PreferenceError::UnsupportedPlatform { .. } | PreferenceError::UnsupportedVersion { .. } => "preferences"@,
            PreferenceError::Connection { .. } => "preferences transport"@,
            PreferenceError::TimedOut => "preferences timeout"@,
            PreferenceError::Cancelled => "preferences cancellation"@,
            PreferenceError::PermissionDenied => "preferences permission"@,
            PreferenceError::HttpStatus { .. } => "preferences HTTP"@,
            PreferenceError::InvalidResponse { .. } => "preferences response"@,
            PreferenceError::InvalidJson { .. } => "preferences JSON"@,
        }
    }

    pub fn operation(&self) -> (r: &'static str)
        ensures
            r@ == self.operation_spec(),
    {
        match self {
            PreferenceError::UnsupportedPlatform { .. } | PreferenceError::UnsupportedVersion { .. } => "preferences",
            PreferenceError::Connection { .. } => "preferences transport",
            PreferenceError::TimedOut => "preferences timeout",
            PreferenceError::Cancelled => "preferences cancellation",
            PreferenceError::PermissionDenied => "preferences permission",
            PreferenceError::HttpStatus { .. } => "preferences HTTP",
            PreferenceError::InvalidResponse { .. } => "preferences response",
            PreferenceError::InvalidJson { .. } => "preferences JSON",
        }
    }
}

/// The error for an operating-system failure while talking to the daemon.
pub fn io_error(kind: IoErrorKind, message: String) -> (r: PreferenceError)
    ensures
        kind == IoErrorKind::PermissionDenied ==> r == PreferenceError::PermissionDenied,
        kind != IoErrorKind::PermissionDenied ==> r == (PreferenceError::Connection { detail: message }),
{
    if kind == IoErrorKind::PermissionDenied {
        PreferenceError::PermissionDenied
    } else {
        PreferenceError::Connection { detail: message }
    }
}

/// Reads preferences from one daemon. Time limits are in milliseconds.
#[derive(Debug, Clone, PartialEq, Eq)]
pub struct PreferenceClient {
    pub version: String,
    pub platform: PreferencePlatform,
    pub timeout_ms: u64,
    socket_path: Option<String>,
}

pub ghost struct PreferenceClientView {
    pub version: Seq<char>,
    pub platform: PreferencePlatform,
    pub timeout_ms: u64,
    pub socket_path: Option<Seq<char>>,
}

impl View for PreferenceClient {
    type V = PreferenceClientView;

    closed spec fn view(&self) -> PreferenceClientView {
        PreferenceClientView {
            version: self.version@,
            platform: self.platform,
            timeout_ms: self.timeout_ms,
            socket_path: match self.socket_path {
                Some(p) => Some(p@),
                None => None,
            },
        }
    }
}

impl PreferenceClient {
    pub fn new(version: String, platform: PreferencePlatform, timeout_ms: u64) -> (r: Self)
        ensures
            r@ == (PreferenceClientView {
                version: version@,
                platform,
                timeout_ms,
                socket_path: None,
            }),
    {
        PreferenceClient { version, platform, timeout_ms, socket_path: None }
    }

    pub fn with_socket_path(self, socket_path: String) -> (r: Self)
        ensures
            r@ == (PreferenceClientView { socket_path: Some(socket_path@), ..self@ }),
    {
        PreferenceClient { socket_path: Some(socket_path), ..self }
    }

    /// The socket that was set, or the platform's documented one.
    pub fn socket_path(&self) -> (r: String)
        ensures
            self@.socket_path is Some ==> r@ == self@.socket_path->0,
            self@.socket_path is None ==> r@ == socket_path_spec(self@.platform),
    {
        match &self.socket_path {
            Some(path) => path.clone(),
            None => documented_socket_path(self.platform),
        }
    }

    /// Preferences are only read from the pinned client release.
    pub fn compatibility(&self) -> (r: Result<(), PreferenceError>)
        ensures
            self@.version == COMPATIBILITY_VERSION@ ==> r is Ok,
            self@.version != COMPATIBILITY_VERSION@ ==> r is Err && r->Err_0 is UnsupportedVersion
                && r->Err_0->UnsupportedVersion_expected@ == COMPATIBILITY_VERSION@
                && r->Err_0->UnsupportedVersion_actual@ == self@.version,
    {
        if crate::text::chars_eq_str(&chars_of(self.version.as_str()), COMPATIBILITY_VERSION) {
            Ok(())
        } else {
            Err(PreferenceError::UnsupportedVersion {
                expected: COMPATIBILITY_VERSION.to_owned(),
                actual: self.version.clone(),
            })
        }
    }
}

/// The request that reads preferences, exactly as it goes on the wire.
pub open spec fn request_text() -> Seq<char> {
    "GET "@ + LOCAL_API_PATH@ + " HTTP/1.1\r\nHost: "@ + LOCAL_API_HOST@ + "\r\nTailscale-Cap: "@
        + COMPATIBILITY_CAPABILITY@ + "\r\nConnection: close\r\n\r\n"@
}

pub fn request_bytes() -> (r: Vec<u8>)
    ensures
        r@ == ascii_bytes(request_text()),
{
    let mut v = chars_of("GET ");
    append_str(&mut v, LOCAL_API_PATH);
    append_str(&mut v, " HTTP/1.1\r\nHost: ");
    append_str(&mut v, LOCAL_API_HOST);
    append_str(&mut v, "\r\nTailscale-Cap: ");
    append_str(&mut v, COMPATIBILITY_CAPABILITY);
    append_str(&mut v, "\r\nConnection: close\r\n\r\n");
    let text = string_from_chars(&v);
    ascii_to_bytes(text.as_str())
}

/// The four bytes that end the header block: `\r\n\r\n`.
pub open spec fn blank_line_at(r: Seq<u8>, p: int) -> bool {
    0 <= p && p + 4 <= r.len() && r[p] == 13 && r[p + 1] == 10 && r[p + 2] == 13 && r[p + 3] == 10
}

/// Where the first blank line starts, searching from `i`.
pub open spec fn first_blank_line_from(r: Seq<u8>, i: int) -> Option<int>
    decreases r.len() - i,
{
    if i < 0 || i + 4 > r.len() {
        None
    } else if blank_line_at(r, i) {
        Some(i)
    } else {
        first_blank_line_from(r, i + 1)
    }
}

/// The text that `Utf8Error`'s `Display` shows for invalid bytes.
pub uninterp spec fn utf8_error_text(bytes: Seq<u8>) -> Seq<char>;

/// Decodes UTF-8, or describes why it cannot.
#[verifier::external_body]
pub(crate) fn utf8_with_message(bytes: &[u8]) -> (r: Result<String, String>)
    ensures
        valid_utf8(bytes@) ==> r is Ok && r->Ok_0@ == utf8_text(bytes@),
        !valid_utf8(bytes@) ==> r is Err && r->Err_0@ == utf8_error_text(bytes@),
{
    match std::str::from_utf8(bytes) {
        Ok(text) => Ok(text.to_owned()),
        Err(error) => Err(error.to_string()),
    }
}

/// The status code in the first line of a header block, as `u16` text.
pub open spec fn status_token(headers: Seq<char>) -> Option<Seq<char>> {
    let ls = lines_of(headers);
    if ls.len() == 0 {
        None
    } else {
        let toks = ascii_tokens_of(ls[0]);
        if toks.len() > 1 {
            Some(toks[1])
        } else {
            None
        }
    }
}

pub open spec fn status_of(headers: Seq<char>) -> Option<nat> {
    match status_token(headers) {
        Some(t) => parse_unsigned_spec(t, 65535),
        None => None,
    }
}

pub proof fn lemma_first_blank_line(r: Seq<u8>, i: int)
    ensures
        first_blank_line_from(r, i) matches Some(p) ==> blank_line_at(r, p) && i <= p,
    decreases r.len() - i,
{
    if !(i < 0 || i + 4 > r.len()) && !blank_line_at(r, i) {
        lemma_first_blank_line(r, i + 1);
    }
}

/// Where the first `\r\n\r\n` starts.
pub fn find_blank_line(response: &[u8]) -> (r: Option<usize>)
    ensures
        match r {
            Some(p) => first_blank_line_from(response@, 0) == Some(p as int),
            None => first_blank_line_from(response@, 0) is None,
        },
{
    let mut i: usize = 0;
    while i < response.len() && response.len() - i >= 4
        invariant
            i <= response@.len(),
            first_blank_line_from(response@, 0) == first_blank_line_from(response@, i as int),
        decreases response@.len() - i,
    {
        if response[i] == 13 && response[i + 1] == 10 && response[i + 2] == 13 && response[i + 3] == 10 {
            return Some(i);
        }
        i = i + 1;
    }
    None
}

/// The body of an HTTP response, or why it was refused. Only a `200` with a
/// non-empty body is accepted; `401` and `403` mean permission was denied.
pub fn parse_http_response(response: &[u8]) -> (r: Result<Vec<u8>, PreferenceError>)
    ensures
        first_blank_line_from(response@, 0) is None ==> r is Err && r->Err_0 is InvalidResponse
            && r->Err_0->InvalidResponse_detail@ == "HTTP headers were incomplete"@,
        first_blank_line_from(response@, 0) is Some ==> ({
            let end = first_blank_line_from(response@, 0)->0 + 4;
            let head = response@.take(end);
            let body = response@.skip(end);
            if !valid_utf8(head) {
                r is Err && r->Err_0 is InvalidResponse && r->Err_0->InvalidResponse_detail@
                    == "HTTP headers were not UTF-8: "@ + utf8_error_text(head)
            } else {
                match status_of(utf8_text(head)) {
                    None => r is Err && r->Err_0 is InvalidResponse
                        && r->Err_0->InvalidResponse_detail@ == "HTTP status was not returned"@,
                    Some(status) => if status == 401 || status == 403 {
                        r == Err::<Vec<u8>, PreferenceError>(PreferenceError::PermissionDenied)
                    } else if status != 200 {
                        r == Err::<Vec<u8>, PreferenceError>(
                            PreferenceError::HttpStatus { status: status as u16 },
                        )
                    } else if body.len() == 0 {
                        r is Err && r->Err_0 is InvalidResponse
                            && r->Err_0->InvalidResponse_detail@ == "HTTP body was empty"@
                    } else {
                        r is Ok && r->Ok_0@ == body
                    },
                }
            }
        }),
{
    let start = match find_blank_line(response) {
        Some(p) => p,
        None => {
            return Err(PreferenceError::InvalidResponse {
                detail: "HTTP headers were incomplete".to_owned(),
            });
        },
    };
    proof {
        lemma_first_blank_line(response@, 0);
        assert(first_blank_line_from(response@, 0) == Some(start as int));
        assert(blank_line_at(response@, start as int));
    }
    let total = response.len();
    assert(start + 4 <= total);
    let end = start + 4;
    let mut head: Vec<u8> = Vec::new();
    let mut j: usize = 0;
    while j < end
        invariant
            end <= response@.len(),
            j <= end,
            head@ == response@.take(j as int),
        decreases end - j,
    {
        head.push(response[j]);
        proof {
            assert(head@ =~= response@.take(j + 1));
        }
        j = j + 1;
    }
    let headers = match utf8_with_message(head.as_slice()) {
        Ok(text) => text,
        Err(message) => {
            let mut v = chars_of("HTTP headers were not UTF-8: ");
            append_str(&mut v, message.as_str());
            return Err(PreferenceError::InvalidResponse { detail: string_from_chars(&v) });
        },
    };
    let ls = lines(&chars_of(headers.as_str()));
    let mut status: Option<u64> = None;
    if ls.len() > 0 {
        let toks = split_ascii_whitespace(&ls[0]);
        if toks.len() > 1 {
            status = parse_unsigned(&toks[1], 65535);
        }
    }
    let status: u16 = match status {
        Some(s) => s as u16,
        None => {
            return Err(PreferenceError::InvalidResponse {
                detail: "HTTP status was not returned".to_owned(),
            });
        },
    };
    if status == 401 || status == 403 {
        return Err(PreferenceError::PermissionDenied);
    }
    if status != 200 {
        return Err(PreferenceError::HttpStatus { status });
    }
    if end == response.len() {
        proof {
            assert(response@.skip(end as int).len() == 0);
        }
        return Err(PreferenceError::InvalidResponse { detail: "HTTP body was empty".to_owned() });
    }
    let mut body: Vec<u8> = Vec::new();
    let mut k: usize = end;
    while k < response.len()
        invariant
            end <= k <= response@.len(),
            body@ == response@.subrange(end as int, k as int),
        decreases response@.len() - k,
    {
        body.push(response[k]);
        proof {
            assert(body@ =~= response@.subrange(end as int, k + 1));
        }
        k = k + 1;
    }
    proof {
        assert(body@ =~= response@.skip(end as int));
    }
    Ok(body)
}

/// Adds one read to a response being collected. An empty read ends the
/// response: `Ok(true)`; a read that would pass the size limit is refused.
pub fn take_response_chunk(response: &mut Vec<u8>, chunk: &[u8]) -> (r: Result<bool, PreferenceError>)
    ensures
        chunk@.len() == 0 && old(response)@.len() == 0 ==> r is Err && r->Err_0 is InvalidResponse
            && r->Err_0->InvalidResponse_detail@ == "local API closed without a response"@
            && final(response)@ == old(response)@,
        chunk@.len() == 0 && old(response)@.len() > 0 ==> r == Ok::<bool, PreferenceError>(true)
            && final(response)@ == old(response)@,
        chunk@.len() > 0 && old(response)@.len() + chunk@.len() > MAX_RESPONSE_BYTES ==> r is Err
            && r->Err_0 is InvalidResponse && r->Err_0->InvalidResponse_detail@
            == "response exceeded the bounded capture size"@ && final(response)@ == old(response)@,
        chunk@.len() > 0 && old(response)@.len() + chunk@.len() <= MAX_RESPONSE_BYTES ==> r
            == Ok::<bool, PreferenceError>(false) && final(response)@ == old(response)@ + chunk@,
{
    if chunk.len() == 0 {
        if response.len() == 0 {
            return Err(PreferenceError::InvalidResponse {
                detail: "local API closed without a response".to_owned(),
            });
        }
        return Ok(true);
    }
    if chunk.len() > MAX_RESPONSE_BYTES || response.len() > MAX_RESPONSE_BYTES - chunk.len() {
        return Err(PreferenceError::InvalidResponse {
            detail: "response exceeded the bounded capture size".to_owned(),
        });
    }
    let mut i: usize = 0;
    let ghost start = response@;
    while i < chunk.len()
        invariant
            i <= chunk@.len(),
            response@ == start + chunk@.take(i as int),
            start == old(response)@,
        decreases chunk@.len() - i,
    {
        response.push(chunk[i]);
        proof {
            assert(response@ =~= start + chunk@.take(i + 1));
        }
        i = i + 1;
    }
    proof {
        assert(chunk@.take(chunk@.len() as int) =~= chunk@);
    }
    Ok(false)
}

/// A yes-or-no preference as the daemon reported it: its value, where it was
/// returned, and whether the user may change it.
#[derive(Debug, Clone, Copy, PartialEq, Eq, Structural)]
pub struct ObservedFlag {
    pub value: Option<bool>,
    pub editable: bool,
}

/// A text preference as the daemon reported it.
#[derive(Debug, Clone, PartialEq, Eq)]
pub struct ObservedText {
    pub value: Option<String>,
    pub editable: bool,
}

/// The preferences that checking a change reads, as the daemon reported them
/// after the change.
#[derive(Debug, Clone, PartialEq, Eq)]
pub struct ObservedPreferences {
    pub accept_dns: ObservedFlag,
    pub accept_routes: ObservedFlag,
    pub shields_up: ObservedFlag,
    pub ssh: ObservedFlag,
    pub automatic_update: ObservedFlag,
    pub update_check: ObservedFlag,
    pub report_posture: ObservedFlag,
    pub web_client: ObservedFlag,
    pub hostname: ObservedText,
    pub nickname: ObservedText,
    pub auto_exit_node: Option<bool>,
    pub exit_node_id: Option<String>,
    pub exit_node_ip: Option<String>,
    pub exit_node_allow_lan_access: Option<bool>,
}

/// What one requested yes-or-no setting says of the change: a refusal when
/// it was asked for but cannot be edited, "not yet" when the daemon reports
/// another value, nothing when it agrees or was not asked for.
pub open spec fn flag_decision(name: Seq<char>, requested: Option<bool>, observed: ObservedFlag) -> Option<Result<bool, Seq<char>>> {
    if requested is Some && !observed.editable {
        Some(Err(name + " is unknown or not editable"@))
    } else if requested is Some && requested != observed.value {
        Some(Ok(false))
    } else {
        None
    }
}

/// The same for a requested text setting.
pub open spec fn text_decision(name: Seq<char>, requested: Option<Seq<char>>, observed: ObservedText) -> Option<Result<bool, Seq<char>>> {
    match requested {
        Some(v) => if !observed.editable {
            Some(Err(name + " is unknown or not editable"@))
        } else if opt_view(observed.value) != Some(v) {
            Some(Ok(false))
        } else {
            None
        },
        None => None,
    }
}

/// The first decision made, or `Ok(true)` when none is.
pub open spec fn first_decision(ds: Seq<Option<Result<bool, Seq<char>>>>) -> Result<bool, Seq<char>>
    decreases ds.len(),
{
    if ds.len() == 0 {
        Ok(true)
    } else {
        match ds[0] {
            Some(d) => d,
            None => first_decision(ds.drop_first()),
        }
    }
}

/// Whether the daemon's preferences show a preference change as made: every
/// requested setting, in a fixed order, must be editable and have the
/// requested value.
pub open spec fn preference_change_seen(current: ObservedPreferences, request: PreferenceRequest) -> Result<bool, Seq<char>> {
    first_decision(
        seq![
            flag_decision("accept DNS"@, request.accept_dns, current.accept_dns),
            flag_decision("accept routes"@, request.accept_routes, current.accept_routes),
            flag_decision("shields up"@, request.shields_up, current.shields_up),
            flag_decision("Tailscale SSH"@, request.ssh, current.ssh),
            flag_decision("automatic update"@, request.automatic_update, current.automatic_update),
            flag_decision("update check"@, request.update_check, current.update_check),
            flag_decision("posture reporting"@, request.report_posture, current.report_posture),
            flag_decision("web client"@, request.web_client, current.web_client),
            text_decision("hostname"@, opt_view(request.hostname), current.hostname),
            text_decision("nickname"@, opt_view(request.nickname), current.nickname),
        ],
    )
}

fn check_flag(name: &str, requested: Option<bool>, observed: ObservedFlag) -> (r: Option<Result<bool, String>>)
    ensures
        match flag_decision(name@, requested, observed) {
            None => r is None,
            Some(Ok(b)) => r == Some(Ok::<bool, String>(b)),
            Some(Err(e)) => r matches Some(Err(m)) && m@ == e,
        },
{
    if requested.is_some() && !observed.editable {
        let mut v = chars_of(name);
        append_str(&mut v, " is unknown or not editable");
        return Some(Err(string_from_chars(&v)));
    }
    if requested.is_some() && requested != observed.value {
        return Some(Ok(false));
    }
    None
}

fn check_text(name: &str, requested: &Option<String>, observed: &ObservedText) -> (r: Option<Result<bool, String>>)
    ensures
        match text_decision(name@, opt_view(*requested), *observed) {
            None => r is None,
            Some(Ok(b)) => r == Some(Ok::<bool, String>(b)),
            Some(Err(e)) => r matches Some(Err(m)) && m@ == e,
        },
{
    match requested {
        Some(v) => {
            if !observed.editable {
                let mut c = chars_of(name);
                append_str(&mut c, " is unknown or not editable");
                return Some(Err(string_from_chars(&c)));
            }
            let same = match &observed.value {
                Some(actual) => chars_eq_str(&chars_of(actual.as_str()), v.as_str()),
                None => false,
            };
            if !same {
                return Some(Ok(false));
            }
            None
        },
        None => None,
    }
}

/// Whether the daemon's preferences show `request` as made; an error names a
/// requested setting that is unknown or cannot be edited.
#[verifier::rlimit(30)]
pub fn verify_preference_request(current: &ObservedPreferences, request: &PreferenceRequest) -> (r: Result<bool, String>)
    ensures
        match preference_change_seen(*current, *request) {
            Ok(b) => r == Ok::<bool, String>(b),
            Err(e) => r matches Err(m) && m@ == e,
        },
{
    let ghost ds = seq![
        flag_decision("accept DNS"@, request.accept_dns, current.accept_dns),
        flag_decision("accept routes"@, request.accept_routes, current.accept_routes),
        flag_decision("shields up"@, request.shields_up, current.shields_up),
        flag_decision("Tailscale SSH"@, request.ssh, current.ssh),
        flag_decision("automatic update"@, request.automatic_update, current.automatic_update),
        flag_decision("update check"@, request.update_check, current.update_check),
        flag_decision("posture reporting"@, request.report_posture, current.report_posture),
        flag_decision("web client"@, request.web_client, current.web_client),
        text_decision("hostname"@, opt_view(request.hostname), current.hostname),
        text_decision("nickname"@, opt_view(request.nickname), current.nickname),
    ];
    proof {
        reveal_with_fuel(first_decision, 11);
        assert(ds.drop_first()[0] == ds[1]);
    }
    if let Some(d) = check_flag("accept DNS", request.accept_dns, current.accept_dns) {
        return d;
    }
    proof {
        assert(first_decision(ds) == first_decision(ds.subrange(1, 10)));
    }
    if let Some(d) = check_flag("accept routes", request.accept_routes, current.accept_routes) {
        proof {
            assert(ds.subrange(1, 10)[0] == ds[1]);
        }
        return d;
    }
    proof {
        assert(ds.subrange(1, 10)[0] == ds[1]);
        assert(ds.subrange(1, 10).drop_first() =~= ds.subrange(2, 10));
    }
    if let Some(d) = check_flag("shields up", request.shields_up, current.shields_up) {
        proof {
            assert(ds.subrange(2, 10)[0] == ds[2]);
        }
        return d;
    }
    proof {
        assert(ds.subrange(2, 10)[0] == ds[2]);
        assert(ds.subrange(2, 10).drop_first() =~= ds.subrange(3, 10));
    }
    if let Some(d) = check_flag("Tailscale SSH", request.ssh, current.ssh) {
        proof {
            assert(ds.subrange(3, 10)[0] == ds[3]);
        }
        return d;
    }
    proof {
        assert(ds.subrange(3, 10)[0] == ds[3]);
        assert(ds.subrange(3, 10).drop_first() =~= ds.subrange(4, 10));
    }
    if let Some(d) = check_flag("automatic update", request.automatic_update, current.automatic_update) {
        proof {
            assert(ds.subrange(4, 10)[0] == ds[4]);
        }
        return d;
    }
    proof {
        assert(ds.subrange(4, 10)[0] == ds[4]);
        assert(ds.subrange(4, 10).drop_first() =~= ds.subrange(5, 10));
    }
    if let Some(d) = check_flag("update check", request.update_check, current.update_check) {
        proof {
            assert(ds.subrange(5, 10)[0] == ds[5]);
        }
        return d;
    }
    proof {
        assert(ds.subrange(5, 10)[0] == ds[5]);
        assert(ds.subrange(5, 10).drop_first() =~= ds.subrange(6, 10));
    }
    if let Some(d) = check_flag("posture reporting", request.report_posture, current.report_posture) {
        proof {
            assert(ds.subrange(6, 10)[0] == ds[6]);
        }
        return d;
    }
    proof {
        assert(ds.subrange(6, 10)[0] == ds[6]);
        assert(ds.subrange(6, 10).drop_first() =~= ds.subrange(7, 10));
    }
    if let Some(d) = check_flag("web client", request.web_client, current.web_client) {
        proof {
            assert(ds.subrange(7, 10)[0] == ds[7]);
        }
        return d;
    }
    proof {
        assert(ds.subrange(7, 10)[0] == ds[7]);
        assert(ds.subrange(7, 10).drop_first() =~= ds.subrange(8, 10));
    }
    if let Some(d) = check_text("hostname", &request.hostname, &current.hostname) {
        proof {
            assert(ds.subrange(8, 10)[0] == ds[8]);
        }
        return d;
    }
    proof {
        assert(ds.subrange(8, 10)[0] == ds[8]);
        assert(ds.subrange(8, 10).drop_first() =~= ds.subrange(9, 10));
    }
    if let Some(d) = check_text("nickname", &request.nickname, &current.nickname) {
        proof {
            assert(ds.subrange(9, 10)[0] == ds[9]);
        }
        return d;
    }
    proof {
        assert(ds.subrange(9, 10)[0] == ds[9]);
        assert(ds.subrange(9, 10).drop_first() =~= Seq::<Option<Result<bool, Seq<char>>>>::empty());
    }
    Ok(true)
}

/// A text that is missing or empty.
pub open spec fn blank(v: Option<Seq<char>>) -> bool {
    match v {
        None => true,
        Some(t) => t.len() == 0,
    }
}

/// Whether the daemon's preferences show an exit-node change as made: the
/// selection took (no exit node and no automatic choice; the automatic
/// choice; or the device, by its ID where one is reported, else by its
/// address), and LAN access is allowed exactly where it was asked for
/// together with an exit node. All four exit-node preferences must have
/// been returned.
pub open spec fn exit_node_change_seen(current: ObservedPreferences, request: ExitNodeRequest) -> Result<bool, Seq<char>> {
    if current.auto_exit_node is None || current.exit_node_id is None || current.exit_node_ip is None
        || current.exit_node_allow_lan_access is None {
        Err("exit-node preferences were not fully returned"@)
    } else {
        let id = opt_view(current.exit_node_id);
        let ip = opt_view(current.exit_node_ip);
        let selected = match request.selection {
            ExitNodeSelection::Disabled => current.auto_exit_node == Some(false) && blank(id) && blank(ip),
            ExitNodeSelection::AutoAny => current.auto_exit_node == Some(true),
            ExitNodeSelection::Device { device_id, target } => if !blank(id) {
                id == Some(device_id@)
            } else if !blank(ip) {
                ip == Some(target@)
            } else {
                false
            },
        };
        Ok(selected && current.exit_node_allow_lan_access == Some(
            request.allow_lan_access && !(request.selection is Disabled),
        ))
    }
}

fn is_blank(v: &Option<String>) -> (r: bool)
    ensures
        r == blank(opt_view(*v)),
{
    match v {
        None => true,
        Some(t) => t.as_str().is_empty(),
    }
}

fn same_text(v: &Option<String>, expected: &String) -> (r: bool)
    ensures
        r == (opt_view(*v) == Some(expected@)),
{
    match v {
        None => false,
        Some(t) => chars_eq_str(&chars_of(t.as_str()), expected.as_str()),
    }
}

/// Whether the daemon's preferences show the exit-node request as made;
/// see `exit_node_change_seen`.
pub fn verify_exit_node(current: &ObservedPreferences, request: &ExitNodeRequest) -> (r: Result<bool, String>)
    ensures
        match exit_node_change_seen(*current, *request) {
            Ok(b) => r == Ok::<bool, String>(b),
            Err(e) => r matches Err(m) && m@ == e,
        },
{
    if current.auto_exit_node.is_none() || current.exit_node_id.is_none() || current.exit_node_ip.is_none()
        || current.exit_node_allow_lan_access.is_none() {
        return Err("exit-node preferences were not fully returned".to_owned());
    }
    let selected = match &request.selection {
        ExitNodeSelection::Disabled => current.auto_exit_node == Some(false) && is_blank(&current.exit_node_id)
            && is_blank(&current.exit_node_ip),
        ExitNodeSelection::AutoAny => current.auto_exit_node == Some(true),
        ExitNodeSelection::Device { device_id, target } => {
            if !is_blank(&current.exit_node_id) {
                same_text(&current.exit_node_id, device_id)
            } else if !is_blank(&current.exit_node_ip) {
                same_text(&current.exit_node_ip, target)
            } else {
                false
            }
        },
    };
    let disabled = matches!(&request.selection, ExitNodeSelection::Disabled);
    Ok(selected && current.exit_node_allow_lan_access == Some(request.allow_lan_access && !disabled))
}

} // verus!

//! The local daemon's HTTP API: its errors, the watch stream's framing, and
//! how status fields are read.
use vstd::prelude::*;

use crate::domain::{
    opt_view, ConnectionPath, ConnectionPathView, LocalDevice, LocalFailure, LocalFailureKind,
    LocalFailureView, LocalSnapshot, LocalState, LocalStateView, OperatingSystem,
    OperatingSystemView, TargetOs,
};
use crate::local::client::views;
use crate::local::json_fields::{
    first_bool, first_bool_spec, first_string, first_string_spec, first_timestamp,
    first_timestamp_spec, first_u64, first_u64_spec, lookup, lookup_field, names_view, normalize,
    normalize_spec, opt_ref, parse_strings, parse_strings_spec,
};
use crate::local::keyed::{lemma_keyed_insert, lemma_keyed_replace, lists_map};
use crate::json::JsonValue;
use crate::local::preferences::{utf8_error_text, utf8_with_message};
use vstd::utf8::{decode_utf8 as utf8_text, valid_utf8};
use crate::numbers::{format_u64, decimal};
use crate::text::{
    append_chars, append_str, bounded_spec, bounded_string, chars_eq_str, chars_of, is_alnum,
    is_ascii_alphanumeric, lower_char, lower_seq, lowercase, starts_with, starts_with_str,
    string_from_chars, to_lower_char, chars_less, chars_lt, eq_ignore_ascii_case, eq_ignore_case,
};

verus! {

pub const LOCAL_API_HOST: &'static str = "local-tailscaled.sock";

pub const LOCAL_API_CAPABILITY: &'static str = "138";

pub const LOCAL_API_STATUS_PATH: &'static str = "/localapi/v0/status";

pub const LOCAL_API_PREFS_PATH: &'static str = "/localapi/v0/prefs";

pub const LOCAL_API_WATCH_PATH: &'static str = "/localapi/v0/watch-ipn-bus";

pub const MAX_BODY_BYTES: usize = 33554432;

pub const MAX_NOTIFICATION_BYTES: usize = 33554432;

/// The client release whose API this module speaks.
pub const EXPECTED_CLIENT_FAMILY: &'static str = "1.98.9";

/// Details are cut to this many bytes.
pub const DETAIL_LIMIT: usize = 4096;

pub open spec fn documented_socket_path_spec(os: TargetOs) -> Seq<char> {
    match os {
        TargetOs::Windows => "\\\\.\\pipe\\ProtectedPrefix\\Administrators\\Tailscale\\tailscaled"@,
        TargetOs::MacOS => "/var/run/tailscaled.socket"@,
        _ => "/var/run/tailscale/tailscaled.sock"@,
    }
}

/// Where the daemon listens by default on the operating system Tale runs on.
pub fn documented_socket_path(os: TargetOs) -> (r: String)
    ensures
        r@ == documented_socket_path_spec(os),
{
    match os {
        TargetOs::Windows => "\\\\.\\pipe\\ProtectedPrefix\\Administrators\\Tailscale\\tailscaled".to_owned(),
        TargetOs::MacOS => "/var/run/tailscaled.socket".to_owned(),
        _ => "/var/run/tailscale/tailscaled.sock".to_owned(),
    }
}

#[derive(Debug, Clone, Copy, PartialEq, Eq, Structural)]
pub enum LocalEndpointKind {
    UnixSocket,
    WindowsNamedPipe,
}

impl LocalEndpointKind {
    /// The endpoint kind on the operating system Tale runs on.
    pub fn current(os: TargetOs) -> (r: Self)
        ensures
            r == (if os == TargetOs::Windows {
                LocalEndpointKind::WindowsNamedPipe
            } else {
                LocalEndpointKind::UnixSocket
            }),
    {
        if os == TargetOs::Windows {
            LocalEndpointKind::WindowsNamedPipe
        } else {
            LocalEndpointKind::UnixSocket
        }
    }

    pub open spec fn label_spec(self) -> Seq<char> {
        match self {
            LocalEndpointKind::UnixSocket => "unix socket"@,
            LocalEndpointKind::WindowsNamedPipe => "Windows named pipe"@,
        }
    }

    pub fn label(self) -> (r: &'static str)
        ensures
            r@ == self.label_spec(),
    {
        match self {
            LocalEndpointKind::UnixSocket => "unix socket",
            LocalEndpointKind::WindowsNamedPipe => "Windows named pipe",
        }
    }
}

#[derive(Debug, Clone, PartialEq, Eq)]
pub enum LocalDaemonError {
    Connection { operation: String, detail: String },
    TimedOut { operation: String },
    Cancelled,
    HttpStatus { operation: String, status: u16, detail: String },
    Protocol { operation: String, detail: String },
    Decode { operation: String, detail: String },
    UnsupportedVersion { expected: String, actual: String },
    UnsupportedPlatform,
}

/// Detail cut to its byte limit, marked when cut.
pub fn bounded_detail(value: &str) -> (r: String)
    ensures
        r@ == bounded_spec(value@, DETAIL_LIMIT as nat, "\n...[detail truncated]"@),
{
    bounded_string(value, DETAIL_LIMIT, "\n...[detail truncated]")
}

impl LocalDaemonError {
    pub open spec fn operation_spec(&self) -> Seq<char> {
        match self {
            LocalDaemonError::Connection { operation, .. } => operation@,
            LocalDaemonError::TimedOut { operation } => operation@,
            LocalDaemonError::HttpStatus { operation, .. } => operation@,
            LocalDaemonError::Protocol { operation, .. } => operation@,
            LocalDaemonError::Decode { operation, .. } => operation@,
            LocalDaemonError::UnsupportedVersion { .. } => "version"@,
            LocalDaemonError::Cancelled => "cancellation"@,
            LocalDaemonError::UnsupportedPlatform => "platform"@,
        }
    }

    pub fn operation(&self) -> (r: String)
        ensures
            r@ == self.operation_spec(),
    {
        match self {
            LocalDaemonError::Connection { operation, .. } => operation.clone(),
            LocalDaemonError::TimedOut { operation } => operation.clone(),
            LocalDaemonError::HttpStatus { operation, .. } => operation.clone(),
            LocalDaemonError::Protocol { operation, .. } => operation.clone(),
            LocalDaemonError::Decode { operation, .. } => operation.clone(),
            LocalDaemonError::UnsupportedVersion { .. } => "version".to_owned(),
            LocalDaemonError::Cancelled => "cancellation".to_owned(),
            LocalDaemonError::UnsupportedPlatform => "platform".to_owned(),
        }
    }

    /// An HTTP status's failure kind: `401`/`403` deny permission, `404`,
    /// `405` and `501` mean the client lacks the endpoint.
    pub open spec fn status_kind(status: u16) -> LocalFailureKind {
        if status == 401 || status == 403 {
            LocalFailureKind::PermissionDenied
        } else if status == 404 || status == 405 || status == 501 {
            LocalFailureKind::UnsupportedClient
        } else {
            LocalFailureKind::DaemonUnavailable
        }
    }

    pub open spec fn failure_spec(&self) -> LocalFailureView {
        let operation = self.operation_spec();
        match self {
            LocalDaemonError::Connection { detail, .. } => LocalFailureView {
                kind: LocalFailureKind::DaemonUnavailable,
                operation,
                summary: "local daemon unavailable"@,
                detail: detail@,
                retryable: true,
            },
            LocalDaemonError::TimedOut { .. } => LocalFailureView {
                kind: LocalFailureKind::TimedOut,
                operation,
                summary: "local daemon request timed out"@,
                detail: "the LocalAPI request exceeded the configured deadline"@,
                retryable: true,
            },
            LocalDaemonError::Cancelled => LocalFailureView {
                kind: LocalFailureKind::Cancelled,
                operation,
                summary: "local daemon request cancelled"@,
                detail: "the LocalAPI request was cancelled"@,
                retryable: false,
            },
            LocalDaemonError::HttpStatus { status, detail, .. } => LocalFailureView {
                kind: Self::status_kind(*status),
                operation,
                summary: "local daemon returned an HTTP error"@,
                detail: detail@,
                retryable: true,
            },
            LocalDaemonError::Protocol { detail, .. } => LocalFailureView {
                kind: LocalFailureKind::InvalidOutput,
                operation,
                summary: "local daemon response was unsupported"@,
                detail: detail@,
                retryable: false,
            },
            LocalDaemonError::Decode { detail, .. } => LocalFailureView {
                kind: LocalFailureKind::InvalidOutput,
                operation,
                summary: "local daemon response was unsupported"@,
                detail: detail@,
                retryable: false,
            },
            LocalDaemonError::UnsupportedVersion { actual, .. } => LocalFailureView {
                kind: LocalFailureKind::UnsupportedClient,
                operation,
                summary: "local daemon client family is unsupported"@,
                detail: "server version "@ + actual@ + " is outside the pinned contract"@,
                retryable: false,
            },
            LocalDaemonError::UnsupportedPlatform => LocalFailureView {
                kind: LocalFailureKind::UnsupportedClient,
                operation,
                summary: "local daemon transport is unsupported"@,
                detail: "the current platform has no approved LocalAPI endpoint"@,
                retryable: false,
            },
        }
    }

    pub fn failure(&self) -> (r: LocalFailure)
        ensures
            r@ == self.failure_spec(),
    {
        let operation = self.operation();
        match self {
            LocalDaemonError::Connection { detail, .. } => LocalFailure::new(
                LocalFailureKind::DaemonUnavailable,
                operation,
                "local daemon unavailable".to_owned(),
                detail.clone(),
                true,
            ),
            LocalDaemonError::TimedOut { .. } => LocalFailure::new(
                LocalFailureKind::TimedOut,
                operation,
                "local daemon request timed out".to_owned(),
                "the LocalAPI request exceeded the configured deadline".to_owned(),
                true,
            ),
            LocalDaemonError::Cancelled => LocalFailure::new(
                LocalFailureKind::Cancelled,
                operation,
                "local daemon request cancelled".to_owned(),
                "the LocalAPI request was cancelled".to_owned(),
                false,
            ),
            LocalDaemonError::HttpStatus { status, detail, .. } => {
                let kind = if *status == 401 || *status == 403 {
                    LocalFailureKind::PermissionDenied
                } else if *status == 404 || *status == 405 || *status == 501 {
                    LocalFailureKind::UnsupportedClient
                } else {
                    LocalFailureKind::DaemonUnavailable
                };
                LocalFailure::new(kind, operation, "local daemon returned an HTTP error".to_owned(), detail.clone(), true)
            },
            LocalDaemonError::Protocol { detail, .. } => LocalFailure::new(
                LocalFailureKind::InvalidOutput,
                operation,
                "local daemon response was unsupported".to_owned(),
                detail.clone(),
                false,
            ),
            LocalDaemonError::Decode { detail, .. } => LocalFailure::new(
                LocalFailureKind::InvalidOutput,
                operation,
                "local daemon response was unsupported".to_owned(),
                detail.clone(),
                false,
            ),
            LocalDaemonError::UnsupportedVersion { actual, .. } => {
                let mut v = chars_of("server version ");
                append_str(&mut v, actual.as_str());
                append_str(&mut v, " is outside the pinned contract");
                LocalFailure::new(
                    LocalFailureKind::UnsupportedClient,
                    operation,
                    "local daemon client family is unsupported".to_owned(),
                    string_from_chars(&v),
                    false,
                )
            },
            LocalDaemonError::UnsupportedPlatform => LocalFailure::new(
                LocalFailureKind::UnsupportedClient,
                operation,
                "local daemon transport is unsupported".to_owned(),
                "the current platform has no approved LocalAPI endpoint".to_owned(),
                false,
            ),
        }
    }
}

/// Which notifications the watch asks for.
#[derive(Debug, Clone, Copy, PartialEq, Eq, Structural)]
pub struct NotifyWatchMask(u64);

impl NotifyWatchMask {
    pub closed spec fn value_spec(self) -> u64 {
        self.0
    }

    /// The mask that Tale watches with.
    pub fn tale() -> (r: Self)
        ensures
            r.value_spec() == 4495,
    {
        NotifyWatchMask(4495)
    }

    pub fn value(self) -> (r: u64)
        ensures
            r == self.value_spec(),
    {
        self.0
    }
}

/// A server version belongs to the pinned family when it is the family
/// itself or the family followed by a space, `-` or `+`.
pub open spec fn in_client_family(version: Seq<char>) -> bool {
    let f = EXPECTED_CLIENT_FAMILY@;
    version == f || (starts_with(version, f) && version.len() > f.len() && (version[f.len() as int]
        == ' ' || version[f.len() as int] == '-' || version[f.len() as int] == '+'))
}

pub fn validate_server_version(version: Option<&str>) -> (r: Result<(), LocalDaemonError>)
    ensures
        match version {
            None => r is Ok,
            Some(v) => if in_client_family(v@) {
                r is Ok
            } else {
                r is Err && r->Err_0 is UnsupportedVersion
                    && r->Err_0->UnsupportedVersion_expected@ == EXPECTED_CLIENT_FAMILY@
                    && r->Err_0->UnsupportedVersion_actual@ == bounded_spec(
                    v@,
                    DETAIL_LIMIT as nat,
                    "\n...[detail truncated]"@,
                )
            },
        },
{
    match version {
        None => Ok(()),
        Some(v) => {
            let c = chars_of(v);
            let f = chars_of(EXPECTED_CLIENT_FAMILY);
            let mut ok = chars_eq_str(&c, EXPECTED_CLIENT_FAMILY);
            if !ok && starts_with_str(&c, EXPECTED_CLIENT_FAMILY) && c.len() > f.len() {
                let next = c[f.len()];
                ok = next == ' ' || next == '-' || next == '+';
            }
            if ok {
                Ok(())
            } else {
                Err(LocalDaemonError::UnsupportedVersion {
                    expected: EXPECTED_CLIENT_FAMILY.to_owned(),
                    actual: bounded_detail(v),
                })
            }
        },
    }
}

/// The error for a response that was not `200 OK`.
pub fn http_status_error(operation: &str, status: u16, endpoint_kind: LocalEndpointKind) -> (r: LocalDaemonError)
    ensures
        r is HttpStatus,
        r->HttpStatus_operation@ == operation@,
        r->HttpStatus_status == status,
        r->HttpStatus_detail@ == "GET "@ + operation@ + " over "@ + endpoint_kind.label_spec() + (
        if status == 403 || status == 401 {
            ": LocalAPI permission was denied"@
        } else {
            ": LocalAPI returned a non-success status"@
        }),
{
    let mut v = chars_of("GET ");
    append_str(&mut v, operation);
    append_str(&mut v, " over ");
    append_str(&mut v, endpoint_kind.label());
    if status == 403 || status == 401 {
        append_str(&mut v, ": LocalAPI permission was denied");
    } else {
        append_str(&mut v, ": LocalAPI returned a non-success status");
    }
    LocalDaemonError::HttpStatus {
        operation: operation.to_owned(),
        status,
        detail: string_from_chars(&v),
    }
}

#[derive(Debug, Clone, PartialEq, Eq)]
pub enum WatchInvalidation {
    Status,
    Preferences,
    Both,
    Nothing,
    DaemonError { detail: String },
}

#[derive(Debug, Clone, PartialEq, Eq)]
pub struct WatchNotification {
    pub invalidation: WatchInvalidation,
}

/// The daemon at one socket. Time limits are in milliseconds.
#[derive(Debug, Clone, PartialEq, Eq)]
pub struct LocalDaemonClient {
    socket_path: String,
    timeout_ms: u64,
}

impl LocalDaemonClient {
    pub closed spec fn socket_path_spec(&self) -> Seq<char> {
        self.socket_path@
    }

    pub closed spec fn timeout_spec(&self) -> u64 {
        self.timeout_ms
    }

    pub fn new(socket_path: String, timeout_ms: u64) -> (r: Self)
        ensures
            r.socket_path_spec() == socket_path@,
            r.timeout_spec() == timeout_ms,
    {
        LocalDaemonClient { socket_path, timeout_ms }
    }

    pub fn socket_path(&self) -> (r: &str)
        ensures
            r@ == self.socket_path_spec(),
    {
        self.socket_path.as_str()
    }

    pub fn timeout_ms(&self) -> (r: u64)
        ensures
            r == self.timeout_spec(),
    {
        self.timeout_ms
    }

    pub fn endpoint_kind(&self, os: TargetOs) -> (r: LocalEndpointKind)
        ensures
            r == (if os == TargetOs::Windows {
                LocalEndpointKind::WindowsNamedPipe
            } else {
                LocalEndpointKind::UnixSocket
            }),
    {
        LocalEndpointKind::current(os)
    }
}

pub open spec fn os_matches(value: Option<String>, r: OperatingSystem) -> bool {
    match value {
        None => r is Unknown && r->Unknown_0@ == "unknown"@,
        Some(v) => {
            let l = lower_seq(v@);
            if l == "linux"@ {
                r is Linux
            } else if l == "darwin"@ || l == "mac"@ || l == "macos"@ || l == "osx"@ {
                r is MacOS
            } else if l == "windows"@ || l == "win"@ {
                r is Windows
            } else if l == "ios"@ {
                r is IOS
            } else if l == "android"@ {
                r is Android
            } else {
                r is Unknown && r->Unknown_0@ == l
            }
        },
    }
}

pub fn parse_os(value: Option<String>) -> (r: OperatingSystem)
    ensures
        os_matches(value, r),
        r@ == os_spec(opt_view(value)),
{
    match value {
        None => OperatingSystem::Unknown("unknown".to_owned()),
        Some(v) => {
            let l = lowercase(&chars_of(v.as_str()));
            if chars_eq_str(&l, "linux") {
                OperatingSystem::Linux
            } else if chars_eq_str(&l, "darwin") || chars_eq_str(&l, "mac") || chars_eq_str(&l, "macos")
                || chars_eq_str(&l, "osx") {
                OperatingSystem::MacOS
            } else if chars_eq_str(&l, "windows") || chars_eq_str(&l, "win") {
                OperatingSystem::Windows
            } else if chars_eq_str(&l, "ios") {
                OperatingSystem::IOS
            } else if chars_eq_str(&l, "android") {
                OperatingSystem::Android
            } else {
                OperatingSystem::Unknown(string_from_chars(&l))
            }
        },
    }
}


/// Where the framing of the notification stream stands: the bytes of the
/// frame being read, the frames completed, and the framing error that
/// stopped it, if any.
pub ghost struct FramingState {
    pub buffer: Seq<u8>,
    pub frames: Seq<Seq<u8>>,
    pub error: Option<Seq<char>>,
}

/// One byte of the stream: a newline ends a non-empty frame; a carriage
/// return, an empty frame or a frame over `limit` stops the stream.
pub open spec fn frame_step(state: FramingState, byte: u8, limit: nat) -> FramingState {
    if state.error.is_some() {
        state
    } else if byte == 10 {
        if state.buffer.len() == 0 {
            FramingState { error: Some("empty notification frame"@), ..state }
        } else {
            FramingState { buffer: Seq::empty(), frames: state.frames.push(state.buffer), error: None }
        }
    } else if byte == 13 {
        FramingState { error: Some("CRLF framing is not part of the pinned watch contract"@), ..state }
    } else if state.buffer.len() >= limit {
        FramingState { error: Some("notification exceeded the bounded frame size"@), ..state }
    } else {
        FramingState { buffer: state.buffer.push(byte), ..state }
    }
}

pub open spec fn frame_bytes(state: FramingState, bytes: Seq<u8>, limit: nat) -> FramingState
    decreases bytes.len(),
{
    if bytes.len() == 0 {
        state
    } else {
        frame_step(frame_bytes(state, bytes.drop_last(), limit), bytes.last(), limit)
    }
}

/// Splits the newline-delimited notification stream into frames.
#[derive(Debug)]
pub struct NewlineJsonDecoder {
    buffer: Vec<u8>,
    limit: usize,
}

impl NewlineJsonDecoder {
    pub closed spec fn pending(&self) -> Seq<u8> {
        self.buffer@
    }

    pub closed spec fn limit_spec(&self) -> usize {
        self.limit
    }

    pub fn new(limit: usize) -> (r: Self)
        ensures
            r.pending() == Seq::<u8>::empty(),
            r.limit_spec() == limit,
    {
        NewlineJsonDecoder { buffer: Vec::new(), limit }
    }

    /// Reads a chunk of the stream: the frames it completed, in order, and
    /// the framing error that stopped it after them, if any.
    pub fn push(&mut self, bytes: &[u8], operation: &str) -> (r: (Vec<Vec<u8>>, Option<LocalDaemonError>))
        ensures
            ({
                let st = frame_bytes(FramingState { buffer: old(self).pending(), frames: Seq::empty(), error: None }, bytes@, old(self).limit_spec() as nat);
                &&& r.0@.map_values(|f: Vec<u8>| f@) == st.frames
                &&& final(self).pending() == st.buffer
                &&& final(self).limit_spec() == old(self).limit_spec()
                &&& match st.error {
                    None => r.1.is_none(),
                    Some(d) => r.1 matches Some(LocalDaemonError::Protocol { operation: o, detail }) && o@ == operation@ && detail@ == d,
                }
            }),
    {
        let ghost start = FramingState { buffer: self.buffer@, frames: Seq::empty(), error: None };
        let mut frames: Vec<Vec<u8>> = Vec::new();
        let mut i: usize = 0;
        proof {
            assert(bytes@.take(0) =~= Seq::<u8>::empty());
            assert(frames@.map_values(|f: Vec<u8>| f@) =~= Seq::<Seq<u8>>::empty());
        }
        while i < bytes.len()
            invariant
                i <= bytes@.len(),
                self.limit == old(self).limit,
                start == (FramingState { buffer: old(self).buffer@, frames: Seq::empty(), error: None }),
                frame_bytes(start, bytes@.take(i as int), self.limit as nat) == (FramingState {
                    buffer: self.buffer@,
                    frames: frames@.map_values(|f: Vec<u8>| f@),
                    error: None,
                }),
            decreases bytes.len() - i,
        {
            let byte = bytes[i];
            let ghost before = frames@.map_values(|f: Vec<u8>| f@);
            proof {
                assert(bytes@.take(i + 1).drop_last() =~= bytes@.take(i as int));
                assert(bytes@.take(i + 1).last() == byte);
            }
            if byte == 10 {
                if self.buffer.len() == 0 {
                    proof {
                        lemma_framing_error_stays(start, bytes@, (i + 1) as int, self.limit as nat);
                        assert(bytes@.take(bytes@.len() as int) =~= bytes@);
                    }
                    return (frames, Some(LocalDaemonError::Protocol {
                        operation: operation.to_owned(),
                        detail: "empty notification frame".to_owned(),
                    }));
                }
                let mut line: Vec<u8> = Vec::new();
                std::mem::swap(&mut line, &mut self.buffer);
                let ghost lv = line@;
                frames.push(line);
                proof {
                    assert(frames@.map_values(|f: Vec<u8>| f@) =~= before.push(lv));
                }
            } else {
                if byte == 13 {
                    proof {
                        lemma_framing_error_stays(start, bytes@, (i + 1) as int, self.limit as nat);
                        assert(bytes@.take(bytes@.len() as int) =~= bytes@);
                    }
                    return (frames, Some(LocalDaemonError::Protocol {
                        operation: operation.to_owned(),
                        detail: "CRLF framing is not part of the pinned watch contract".to_owned(),
                    }));
                }
                if self.buffer.len() >= self.limit {
                    proof {
                        lemma_framing_error_stays(start, bytes@, (i + 1) as int, self.limit as nat);
                        assert(bytes@.take(bytes@.len() as int) =~= bytes@);
                    }
                    return (frames, Some(LocalDaemonError::Protocol {
                        operation: operation.to_owned(),
                        detail: "notification exceeded the bounded frame size".to_owned(),
                    }));
                }
                self.buffer.push(byte);
            }
            i = i + 1;
        }
        proof {
            assert(bytes@.take(bytes@.len() as int) =~= bytes@);
        }
        (frames, None)
    }

    /// The end of the stream: a partial frame left over is an error.
    pub fn finish(&mut self, operation: &str) -> (r: Result<(), LocalDaemonError>)
        ensures
            old(self).pending().len() == 0 ==> r is Ok,
            old(self).pending().len() > 0 ==> (r matches Err(LocalDaemonError::Protocol { operation: o, detail })
                && o@ == operation@ && detail@ == "watch stream closed with an unterminated notification"@),
            *final(self) == *old(self),
    {
        if self.buffer.len() == 0 {
            Ok(())
        } else {
            Err(LocalDaemonError::Protocol {
                operation: operation.to_owned(),
                detail: "watch stream closed with an unterminated notification".to_owned(),
            })
        }
    }
}

/// Once framing stopped with an error, later bytes change nothing.
proof fn lemma_framing_error_stays(start: FramingState, bytes: Seq<u8>, n: int, limit: nat)
    requires
        0 <= n <= bytes.len(),
        frame_bytes(start, bytes.take(n), limit).error.is_some(),
    ensures
        frame_bytes(start, bytes.take(bytes.len() as int), limit) == frame_bytes(start, bytes.take(n), limit),
    decreases bytes.len() - n,
{
    if n < bytes.len() {
        assert(bytes.take(n + 1).drop_last() =~= bytes.take(n));
        lemma_framing_error_stays(start, bytes, n + 1, limit);
    }
}


/// A field of the envelope that says the status changed, when present and not null.
pub open spec fn status_field_set(v: JsonValue, name: Seq<char>) -> bool {
    v.get_spec(name) matches Some(x) && !x.is_null_spec()
}

pub open spec fn names_status_change(v: JsonValue) -> bool {
    status_field_set(v, "State"@) || status_field_set(v, "NetMap"@) || status_field_set(v, "SelfChange"@)
        || status_field_set(v, "PeerChanges"@) || status_field_set(v, "Engine"@) || status_field_set(v, "Health"@)
        || status_field_set(v, "LoginFinished"@) || status_field_set(v, "ClientVersion"@)
}

fn field_set(v: &JsonValue, name: &str) -> (r: bool)
    ensures
        r == status_field_set(*v, name@),
{
    match v.get(name) {
        Some(x) => !matches!(x, JsonValue::Null),
        None => false,
    }
}

/// The daemon's non-empty error message in the envelope, if any.
pub open spec fn daemon_message(v: JsonValue) -> Option<Seq<char>> {
    match v.get_spec("ErrMessage"@) {
        Some(JsonValue::String(m)) => if m@.len() > 0 { Some(m@) } else { None },
        _ => None,
    }
}

pub open spec fn protocol_error(e: LocalDaemonError, operation: Seq<char>, detail: Seq<char>) -> bool {
    e matches LocalDaemonError::Protocol { operation: o, detail: d } && o@ == operation && d@ == detail
}

fn protocol(operation: &str, detail: &str) -> (r: LocalDaemonError)
    ensures
        protocol_error(r, operation@, detail@),
{
    LocalDaemonError::Protocol { operation: operation.to_owned(), detail: detail.to_owned() }
}

/// Whether `r` is what one notification envelope means: which resources
/// changed, or the daemon's error. `parsed` is the frame read as JSON, or
/// the parser's message.
pub open spec fn decodes_to(parsed: Result<JsonValue, String>, operation: Seq<char>, r: Result<WatchNotification, LocalDaemonError>) -> bool {
    match parsed {
        Err(m) => r matches Err(e) && protocol_error(e, operation, bounded_spec(
            "notification JSON was invalid: "@ + m@, DETAIL_LIMIT as nat, "\n...[detail truncated]"@)),
        Ok(v) => if !(v matches JsonValue::Object { .. }) {
            r matches Err(e) && protocol_error(e, operation, "notification envelope was not a JSON object"@)
        } else if v.get_spec("Prefs"@) matches Some(p) && !(p matches JsonValue::Null) && !(p matches JsonValue::Object { .. }) {
            r matches Err(e) && protocol_error(e, operation, "notification Prefs field was not an object or null"@)
        } else if v.get_spec("ErrMessage"@) matches Some(m) && !(m matches JsonValue::Null) && !(m matches JsonValue::String(_)) {
            r matches Err(e) && protocol_error(e, operation, "notification ErrMessage field was not a string or null"@)
        } else if daemon_message(v) is Some {
            r matches Ok(n) && n.invalidation matches WatchInvalidation::DaemonError { detail }
                && detail@ == bounded_spec(daemon_message(v)->0, DETAIL_LIMIT as nat, "\n...[detail truncated]"@)
        } else {
            let status = names_status_change(v);
            let preferences = v.get_spec("Prefs"@) matches Some(JsonValue::Object { .. });
            r matches Ok(n) && n.invalidation == (if status && preferences {
                WatchInvalidation::Both
            } else if status {
                WatchInvalidation::Status
            } else if preferences {
                WatchInvalidation::Preferences
            } else {
                WatchInvalidation::Nothing
            })
        },
    }
}

/// Whether an envelope decodes to a notification rather than an error.
pub open spec fn envelope_ok(parsed: Result<JsonValue, String>) -> bool {
    match parsed {
        Err(_) => false,
        Ok(v) => (v matches JsonValue::Object { .. })
            && !(v.get_spec("Prefs"@) matches Some(p) && !(p matches JsonValue::Null) && !(p matches JsonValue::Object { .. }))
            && !(v.get_spec("ErrMessage"@) matches Some(m) && !(m matches JsonValue::Null) && !(m matches JsonValue::String(_))),
    }
}

/// What one notification envelope means: which resources changed, or the
/// daemon's error. `parsed` is the frame read as JSON, or the parser's message.
pub fn decode_notification(parsed: &Result<JsonValue, String>, operation: &str) -> (r: Result<WatchNotification, LocalDaemonError>)
    ensures
        decodes_to(*parsed, operation@, r),
        r is Ok <==> envelope_ok(*parsed),
{
    let value = match parsed {
        Err(m) => {
            let mut d = chars_of("notification JSON was invalid: ");
            append_str(&mut d, m.as_str());
            let text = string_from_chars(&d);
            return Err(LocalDaemonError::Protocol { operation: operation.to_owned(), detail: bounded_detail(text.as_str()) });
        },
        Ok(v) => v,
    };
    if !matches!(value, JsonValue::Object { .. }) {
        return Err(protocol(operation, "notification envelope was not a JSON object"));
    }
    let status = field_set(value, "State") || field_set(value, "NetMap") || field_set(value, "SelfChange")
        || field_set(value, "PeerChanges") || field_set(value, "Engine") || field_set(value, "Health")
        || field_set(value, "LoginFinished") || field_set(value, "ClientVersion");
    let preferences = match value.get("Prefs") {
        None => false,
        Some(JsonValue::Null) => false,
        Some(JsonValue::Object { .. }) => true,
        Some(_) => {
            return Err(protocol(operation, "notification Prefs field was not an object or null"));
        },
    };
    match value.get("ErrMessage") {
        None => {},
        Some(JsonValue::Null) => {},
        Some(JsonValue::String(m)) => {
            if !m.as_str().is_empty() {
                return Ok(WatchNotification {
                    invalidation: WatchInvalidation::DaemonError { detail: bounded_detail(m.as_str()) },
                });
            }
        },
        Some(_) => {
            return Err(protocol(operation, "notification ErrMessage field was not a string or null"));
        },
    }
    let invalidation = if status && preferences {
        WatchInvalidation::Both
    } else if status {
        WatchInvalidation::Status
    } else if preferences {
        WatchInvalidation::Preferences
    } else {
        WatchInvalidation::Nothing
    };
    Ok(WatchNotification { invalidation })
}
/// The most notifications one chunk of the stream may bring at once.
pub const MAX_BUFFERED_NOTIFICATIONS: usize = 256;

/// The notifications of one chunk of the stream: its frames read as JSON, in
/// order, and the framing error met after them, if any. The first frame that
/// does not decode fails the chunk; then a framing error does; then more
/// than `MAX_BUFFERED_NOTIFICATIONS` frames do. A chunk that fails yields
/// none of its notifications.
pub fn chunk_notifications(
    parsed: &Vec<Result<JsonValue, String>>,
    framing_error: Option<LocalDaemonError>,
    operation: &str,
) -> (r: Result<Vec<WatchNotification>, LocalDaemonError>)
    ensures
        forall|k: int| 0 <= k < parsed@.len() && !envelope_ok(#[trigger] parsed@[k])
            && (forall|j: int| 0 <= j < k ==> envelope_ok(parsed@[j])) ==> (r matches Err(e) && decodes_to(
            parsed@[k],
            operation@,
            Err(e),
        )),
        (forall|j: int| 0 <= j < parsed@.len() ==> envelope_ok(#[trigger] parsed@[j])) ==> match framing_error {
            Some(f) => r == Err::<Vec<WatchNotification>, LocalDaemonError>(f),
            None => if parsed@.len() > MAX_BUFFERED_NOTIFICATIONS {
                r matches Err(e) && protocol_error(e, operation@, "too many notifications were buffered in one body frame"@)
            } else {
                r matches Ok(v) && v@.len() == parsed@.len() && forall|j: int| 0 <= j < parsed@.len() ==> decodes_to(
                    #[trigger] parsed@[j],
                    operation@,
                    Ok(v@[j]),
                )
            },
        },
{
    let mut out: Vec<WatchNotification> = Vec::new();
    let mut i: usize = 0;
    while i < parsed.len()
        invariant
            i <= parsed@.len(),
            out@.len() == i,
            forall|j: int| 0 <= j < i ==> envelope_ok(#[trigger] parsed@[j]),
            forall|j: int| 0 <= j < i ==> decodes_to(#[trigger] parsed@[j], operation@, Ok(out@[j])),
        decreases parsed.len() - i,
    {
        match decode_notification(&parsed[i], operation) {
            Ok(n) => {
                out.push(n);
            },
            Err(e) => {
                proof {
                    assert(!envelope_ok(parsed@[i as int]));
                    assert forall|k: int| 0 <= k < parsed@.len() && !envelope_ok(#[trigger] parsed@[k])
                        && (forall|j: int| 0 <= j < k ==> envelope_ok(parsed@[j])) implies k == i by {
                        if k < i {
                            assert(envelope_ok(parsed@[k]));
                        }
                        if k > i {
                            assert(envelope_ok(parsed@[i as int]));
                        }
                    }
                }
                return Err(e);
            },
        }
        i = i + 1;
    }
    proof {
        assert forall|k: int| 0 <= k < parsed@.len() implies envelope_ok(#[trigger] parsed@[k]) by {}
    }
    if let Some(f) = framing_error {
        return Err(f);
    }
    if parsed.len() > MAX_BUFFERED_NOTIFICATIONS {
        return Err(protocol(operation, "too many notifications were buffered in one body frame"));
    }
    Ok(out)
}


/// The state that the daemon's backend state name, health messages and
/// login address describe; names are compared in any ASCII case.
pub open spec fn backend_state_spec(value: Option<Seq<char>>, health: Seq<Seq<char>>, auth_url: Option<Seq<char>>) -> LocalStateView {
    let l = match value {
        Some(v) => Some(lower_seq(v)),
        None => None,
    };
    if l == Some("needslogin"@) || l == Some("needs_login"@) || l == Some("needs machine auth"@) || l == Some("needsmachineauth"@) {
        LocalStateView::NeedsLogin { auth_url }
    } else if l == Some("stopped"@) || l == Some("nostate"@) || l == Some("no_state"@) {
        LocalStateView::Stopped
    } else if health.len() == 0 {
        LocalStateView::Running
    } else {
        LocalStateView::Degraded { health_messages: health }
    }
}

pub fn backend_state(value: Option<&str>, health: &Vec<String>, auth_url: Option<String>) -> (r: LocalState)
    ensures
        r@ == backend_state_spec(
            match value { Some(v) => Some(v@), None => None },
            health@.map_values(|m: String| m@),
            crate::domain::opt_view(auth_url),
        ),
{
    let lower = match value {
        Some(v) => Some(lowercase(&chars_of(v))),
        None => None,
    };
    let is = |l: &Option<Vec<char>>, word: &str| -> (b: bool)
        ensures
            b == (match l { Some(x) => x@ == word@, None => false }),
    {
        match l {
            Some(x) => chars_eq_str(x, word),
            None => false,
        }
    };
    if is(&lower, "needslogin") || is(&lower, "needs_login") || is(&lower, "needs machine auth") || is(&lower, "needsmachineauth") {
        LocalState::NeedsLogin { auth_url }
    } else if is(&lower, "stopped") || is(&lower, "nostate") || is(&lower, "no_state") {
        LocalState::Stopped
    } else if health.len() == 0 {
        LocalState::Running
    } else {
        let mut messages: Vec<String> = Vec::new();
        let mut i: usize = 0;
        while i < health.len()
            invariant
                i <= health@.len(),
                messages@.map_values(|m: String| m@) == health@.map_values(|m: String| m@).take(i as int),
            decreases health.len() - i,
        {
            let ghost before = messages@.map_values(|m: String| m@);
            let m = health[i].clone();
            messages.push(m);
            proof {
                assert(messages@.map_values(|m: String| m@) =~= before.push(health@[i as int]@));
                assert(messages@.map_values(|m: String| m@) =~= health@.map_values(|m: String| m@).take(i + 1));
            }
            i = i + 1;
        }
        proof {
            assert(health@.map_values(|m: String| m@).take(health@.len() as int) =~= health@.map_values(|m: String| m@));
        }
        LocalState::Degraded { health_messages: messages }
    }
}


pub open spec fn clean_frames(frames: Seq<Seq<u8>>, limit: nat) -> bool {
    forall|k: int| 0 <= k < frames.len() ==> {
        let f = #[trigger] frames[k];
        &&& 0 < f.len() <= limit
        &&& !f.contains(10u8)
        &&& !f.contains(13u8)
    }
}

pub open spec fn clean_buffer(buffer: Seq<u8>, limit: nat) -> bool {
    buffer.len() <= limit && !buffer.contains(10u8) && !buffer.contains(13u8)
}

/// Every frame the decoder hands on is non-empty, within the limit, and
/// free of newlines and carriage returns; so is what it keeps pending.
pub proof fn frames_are_clean(start: FramingState, bytes: Seq<u8>, limit: nat)
    requires
        clean_frames(start.frames, limit),
        clean_buffer(start.buffer, limit),
    ensures
        clean_frames(frame_bytes(start, bytes, limit).frames, limit),
        clean_buffer(frame_bytes(start, bytes, limit).buffer, limit),
    decreases bytes.len(),
{
    if bytes.len() > 0 {
        frames_are_clean(start, bytes.drop_last(), limit);
        let st = frame_bytes(start, bytes.drop_last(), limit);
        let b = bytes.last();
        if st.error.is_none() && b != 10 && b != 13 && st.buffer.len() < limit {
            assert forall|x: u8| st.buffer.push(b).contains(x) implies st.buffer.contains(x) || x == b by {
                let i = choose|i: int| 0 <= i < st.buffer.push(b).len() && st.buffer.push(b)[i] == x;
                if i < st.buffer.len() {
                    assert(st.buffer[i] == x);
                }
            }
        }
        if st.error.is_none() && b == 10 && st.buffer.len() > 0 {
            let fr = st.frames.push(st.buffer);
            assert forall|k: int| 0 <= k < fr.len() implies {
                let f = #[trigger] fr[k];
                &&& 0 < f.len() <= limit
                &&& !f.contains(10u8)
                &&& !f.contains(13u8)
            } by {
                if k < st.frames.len() {
                    assert(fr[k] == st.frames[k]);
                }
            }
            assert(!Seq::<u8>::empty().contains(10u8));
            assert(!Seq::<u8>::empty().contains(13u8));
        }
    }
}

/// The framing does not depend on how the stream is cut into chunks: two
/// chunks read one after the other frame as their concatenation does.
pub proof fn framing_ignores_chunking(start: FramingState, a: Seq<u8>, b: Seq<u8>, limit: nat)
    ensures
        frame_bytes(frame_bytes(start, a, limit), b, limit) == frame_bytes(start, a + b, limit),
    decreases b.len(),
{
    if b.len() == 0 {
        assert(a + b =~= a);
    } else {
        framing_ignores_chunking(start, a, b.drop_last(), limit);
        assert((a + b).drop_last() =~= a + b.drop_last());
        assert((a + b).last() == b.last());
    }
}

/// A stream framed from the start without error leaves nothing pending
/// exactly when it was empty or ended in a newline; so a fresh decoder's
/// `finish` succeeds after `push` exactly then.
pub proof fn finish_needs_a_final_newline(bytes: Seq<u8>, limit: nat)
    requires
        frame_bytes(FramingState { buffer: Seq::empty(), frames: Seq::empty(), error: None }, bytes, limit).error is None,
    ensures
        (frame_bytes(FramingState { buffer: Seq::empty(), frames: Seq::empty(), error: None }, bytes, limit).buffer.len() == 0)
            <==> (bytes.len() == 0 || bytes.last() == 10),
{
    let start = FramingState { buffer: Seq::empty(), frames: Seq::empty(), error: None };
    if bytes.len() > 0 {
        let st = frame_bytes(start, bytes.drop_last(), limit);
        assert(frame_bytes(start, bytes, limit) == frame_step(st, bytes.last(), limit));
    }
}

/// The operating system that a status names, read without case.
pub open spec fn os_spec(value: Option<Seq<char>>) -> OperatingSystemView {
    match value {
        None => OperatingSystemView::Unknown("unknown"@),
        Some(v) => {
            let l = lower_seq(v);
            if l == "linux"@ {
                OperatingSystemView::Linux
            } else if l == "darwin"@ || l == "mac"@ || l == "macos"@ || l == "osx"@ {
                OperatingSystemView::MacOS
            } else if l == "windows"@ || l == "win"@ {
                OperatingSystemView::Windows
            } else if l == "ios"@ {
                OperatingSystemView::IOS
            } else if l == "android"@ {
                OperatingSystemView::Android
            } else {
                OperatingSystemView::Unknown(l)
            }
        },
    }
}

pub open spec fn flag_views(r: Seq<(String, bool)>) -> Seq<(Seq<char>, bool)> {
    r.map_values(|p: (String, bool)| (p.0@, p.1))
}

/// Names of an array, each on.
pub open spec fn caps_of_items(items: Seq<JsonValue>) -> Map<Seq<char>, bool>
    decreases items.len(),
{
    if items.len() == 0 {
        Map::empty()
    } else {
        let m = caps_of_items(items.drop_last());
        match items.last() {
            JsonValue::String(s) => m.insert(normalize_spec(s@), true),
            _ => m,
        }
    }
}

/// Names of an object with a boolean value each; other values are skipped.
pub open spec fn caps_of_entries(entries: Seq<(String, JsonValue)>) -> Map<Seq<char>, bool>
    decreases entries.len(),
{
    if entries.len() == 0 {
        Map::empty()
    } else {
        let m = caps_of_entries(entries.drop_last());
        match entries.last().1 {
            JsonValue::Bool(b) => m.insert(normalize_spec(entries.last().0@), b),
            _ => m,
        }
    }
}

/// The capabilities a node lists, by normalized name; a repeated name keeps
/// its last value.
pub open spec fn listed_caps(v: Option<JsonValue>) -> Map<Seq<char>, bool> {
    match v {
        Some(JsonValue::Array { items, .. }) => caps_of_items(items@),
        Some(JsonValue::Object { entries, .. }) => caps_of_entries(entries@),
        _ => Map::empty(),
    }
}

pub open spec fn with_flag(m: Map<Seq<char>, bool>, v: JsonValue, field: Seq<char>, name: Seq<char>) -> Map<
    Seq<char>,
    bool,
> {
    match first_bool_spec(v, seq![field]) {
        Some(b) => m.insert(name, b),
        None => m,
    }
}

/// A node's capabilities: those it lists, then its exit-node, exit-node
/// option, sharing and approval flags under fixed names.
pub open spec fn node_caps(v: JsonValue) -> Map<Seq<char>, bool> {
    with_flag(
        with_flag(
            with_flag(
                with_flag(listed_caps(lookup(v, seq!["Capabilities"@, "capabilities"@])), v, "ExitNode"@, "exit-node"@),
                v,
                "ExitNodeOption"@,
                "exit-node-option"@,
            ),
            v,
            "Shared"@,
            "shared"@,
        ),
        v,
        "Approved"@,
        "approved"@,
    )
}

pub open spec fn cap_on(m: Map<Seq<char>, bool>, name: Seq<char>) -> bool {
    m.dom().contains(name) && m[name]
}

fn put_flag(out: &mut Vec<(String, bool)>, key: String, value: bool, Ghost(m): Ghost<Map<Seq<char>, bool>>)
    requires
        lists_map(flag_views(old(out)@), m),
    ensures
        lists_map(flag_views(final(out)@), m.insert(key@, value)),
{
    let ghost rv = flag_views(out@);
    let k = chars_of(key.as_str());
    let mut j: usize = 0;
    while j < out.len() && chars_less(&chars_of(out[j].0.as_str()), &k)
        invariant
            j <= out@.len(),
            k@ == key@,
            rv == flag_views(out@),
            forall|a: int| 0 <= a < j ==> chars_lt(#[trigger] rv[a].0, key@),
        decreases out.len() - j,
    {
        j = j + 1;
    }
    if j < out.len() && chars_eq_str(&k, out[j].0.as_str()) {
        proof {
            lemma_keyed_replace(rv, m, j as int, key@, value);
        }
        out.set(j, (key, value));
        proof {
            assert(flag_views(out@) =~= rv.update(j as int, (k@, value)));
        }
    } else {
        proof {
            lemma_keyed_insert(rv, m, j as int, key@, value);
        }
        out.insert(j, (key, value));
        proof {
            assert(flag_views(out@) =~= rv.insert(j as int, (k@, value)));
        }
    }
}

fn listed_capabilities(v: Option<&JsonValue>) -> (r: Vec<(String, bool)>)
    ensures
        lists_map(flag_views(r@), listed_caps(opt_ref(v))),
{
    let mut out: Vec<(String, bool)> = Vec::new();
    match v {
        Some(JsonValue::Array { items, .. }) => {
            let mut i: usize = 0;
            proof {
                assert(items@.take(0) =~= Seq::<JsonValue>::empty());
            }
            while i < items.len()
                invariant
                    i <= items@.len(),
                    lists_map(flag_views(out@), caps_of_items(items@.take(i as int))),
                decreases items.len() - i,
            {
                proof {
                    assert(items@.take(i + 1).drop_last() =~= items@.take(i as int));
                    assert(items@.take(i + 1).last() == items@[i as int]);
                }
                match &items[i] {
                    JsonValue::String(s) => {
                        let key = string_from_chars(&normalize(s.as_str()));
                        put_flag(&mut out, key, true, Ghost(caps_of_items(items@.take(i as int))));
                    },
                    _ => {},
                }
                i = i + 1;
            }
            proof {
                assert(items@.take(items@.len() as int) =~= items@);
            }
        },
        Some(JsonValue::Object { entries, .. }) => {
            let mut i: usize = 0;
            proof {
                assert(entries@.take(0) =~= Seq::<(String, JsonValue)>::empty());
            }
            while i < entries.len()
                invariant
                    i <= entries@.len(),
                    lists_map(flag_views(out@), caps_of_entries(entries@.take(i as int))),
                decreases entries.len() - i,
            {
                proof {
                    assert(entries@.take(i + 1).drop_last() =~= entries@.take(i as int));
                    assert(entries@.take(i + 1).last() == entries@[i as int]);
                }
                match &entries[i].1 {
                    JsonValue::Bool(b) => {
                        let key = string_from_chars(&normalize(entries[i].0.as_str()));
                        put_flag(&mut out, key, *b, Ghost(caps_of_entries(entries@.take(i as int))));
                    },
                    _ => {},
                }
                i = i + 1;
            }
            proof {
                assert(entries@.take(entries@.len() as int) =~= entries@);
            }
        },
        _ => {},
    }
    out
}

fn add_bool_capability(
    out: &mut Vec<(String, bool)>,
    v: &JsonValue,
    field: &str,
    name: &str,
    Ghost(m): Ghost<Map<Seq<char>, bool>>,
)
    requires
        lists_map(flag_views(old(out)@), m),
    ensures
        lists_map(flag_views(final(out)@), with_flag(m, *v, field@, name@)),
{
    let names = [field];
    proof {
        assert(names_view(names@) =~= seq![field@]);
    }
    match first_bool(v, &names) {
        Some(b) => put_flag(out, name.to_owned(), b, Ghost(m)),
        None => {},
    }
}

/// The capabilities of a node (see `node_caps`), sorted by name.
pub fn parse_capabilities(v: &JsonValue) -> (r: Vec<(String, bool)>)
    ensures
        lists_map(flag_views(r@), node_caps(*v)),
{
    let names = ["Capabilities", "capabilities"];
    proof {
        assert(names_view(names@) =~= seq!["Capabilities"@, "capabilities"@]);
    }
    let mut out = listed_capabilities(lookup_field(v, &names));
    let ghost m0 = listed_caps(lookup(*v, seq!["Capabilities"@, "capabilities"@]));
    let ghost m1 = with_flag(m0, *v, "ExitNode"@, "exit-node"@);
    let ghost m2 = with_flag(m1, *v, "ExitNodeOption"@, "exit-node-option"@);
    let ghost m3 = with_flag(m2, *v, "Shared"@, "shared"@);
    add_bool_capability(&mut out, v, "ExitNode", "exit-node", Ghost(m0));
    add_bool_capability(&mut out, v, "ExitNodeOption", "exit-node-option", Ghost(m1));
    add_bool_capability(&mut out, v, "Shared", "shared", Ghost(m2));
    add_bool_capability(&mut out, v, "Approved", "approved", Ghost(m3));
    out
}

fn flag_is_on(caps: &Vec<(String, bool)>, name: &str, Ghost(m): Ghost<Map<Seq<char>, bool>>) -> (r: bool)
    requires
        lists_map(flag_views(caps@), m),
    ensures
        r == cap_on(m, name@),
{
    let ghost rv = flag_views(caps@);
    let k = chars_of(name);
    let mut i: usize = 0;
    while i < caps.len()
        invariant
            i <= caps@.len(),
            k@ == name@,
            rv == flag_views(caps@),
            lists_map(rv, m),
            forall|a: int| 0 <= a < i ==> rv[a].0 != name@,
        decreases caps.len() - i,
    {
        if chars_eq_str(&k, caps[i].0.as_str()) {
            proof {
                assert(rv[i as int].0 == name@);
                assert(m.dom().contains(rv[i as int].0));
            }
            return caps[i].1;
        }
        proof {
            assert(rv[i as int].0 != name@);
        }
        i = i + 1;
    }
    proof {
        if m.dom().contains(name@) {
            let a = choose|a: int| 0 <= a < rv.len() && rv[a].0 == name@;
            assert(rv[a].0 == name@);
        }
    }
    false
}

/// A user's label: a string as it is, else the first of its names.
pub open spec fn user_label(v: JsonValue) -> Option<Seq<char>> {
    match v {
        JsonValue::String(s) => Some(s@),
        _ => first_string_spec(v, seq!["DisplayName"@, "Name"@, "Email"@, "LoginName"@, "name"@]),
    }
}

pub open spec fn users_of(entries: Seq<(String, JsonValue)>) -> Map<Seq<char>, Seq<char>>
    decreases entries.len(),
{
    if entries.len() == 0 {
        Map::empty()
    } else {
        let m = users_of(entries.drop_last());
        match user_label(entries.last().1) {
            Some(l) => m.insert(entries.last().0@, l),
            None => m,
        }
    }
}

/// The labels of the users of a status, by user ID, from its `User` object
/// (or `Users` where there is no `User`).
pub open spec fn users_spec(v: JsonValue) -> Map<Seq<char>, Seq<char>> {
    let source = match v.get_spec("User"@) {
        Some(x) => Some(x),
        None => v.get_spec("Users"@),
    };
    match source {
        Some(JsonValue::Object { entries, .. }) => users_of(entries@),
        _ => Map::empty(),
    }
}

pub open spec fn map_get<V>(m: Map<Seq<char>, V>, k: Seq<char>) -> Option<V> {
    if m.dom().contains(k) {
        Some(m[k])
    } else {
        None
    }
}

fn user_label_of(v: &JsonValue) -> (r: Option<String>)
    ensures
        opt_view(r) == user_label(*v),
{
    match v {
        JsonValue::String(s) => Some(s.clone()),
        _ => {
            let names = ["DisplayName", "Name", "Email", "LoginName", "name"];
            proof {
                assert(names_view(names@) =~= seq!["DisplayName"@, "Name"@, "Email"@, "LoginName"@, "name"@]);
            }
            first_string(v, &names)
        },
    }
}

/// The label of user `user_id` in a status (see `users_spec`).
pub fn owner_label(status: &JsonValue, user_id: &str) -> (r: Option<String>)
    ensures
        opt_view(r) == map_get(users_spec(*status), user_id@),
{
    let source = match status.get("User") {
        Some(x) => Some(x),
        None => status.get("Users"),
    };
    let entries = match source {
        Some(JsonValue::Object { entries, .. }) => entries,
        _ => {
            return None;
        },
    };
    let k = chars_of(user_id);
    let mut found: Option<String> = None;
    let mut i: usize = 0;
    proof {
        assert(entries@.take(0) =~= Seq::<(String, JsonValue)>::empty());
    }
    while i < entries.len()
        invariant
            i <= entries@.len(),
            k@ == user_id@,
            opt_view(found) == map_get(users_of(entries@.take(i as int)), user_id@),
        decreases entries.len() - i,
    {
        proof {
            assert(entries@.take(i + 1).drop_last() =~= entries@.take(i as int));
            assert(entries@.take(i + 1).last() == entries@[i as int]);
        }
        if chars_eq_str(&k, entries[i].0.as_str()) {
            match user_label_of(&entries[i].1) {
                Some(l) => {
                    found = Some(l);
                },
                None => {},
            }
        }
        i = i + 1;
    }
    proof {
        assert(entries@.take(entries@.len() as int) =~= entries@);
    }
    found
}

/// How a node is reached: through a peer relay, a DERP region, directly
/// where it has an endpoint, else by whether it is active.
pub open spec fn path_spec(v: JsonValue, endpoint: Option<Seq<char>>, relay: Option<Seq<char>>) -> ConnectionPathView {
    match first_string_spec(v, seq!["PeerRelay"@, "PeerRelayNode"@, "peerRelay"@]) {
        Some(peer) => ConnectionPathView::PeerRelay { peer },
        None => if relay is Some && relay->0.len() > 0 && !eq_ignore_case(relay->0, "false"@) {
            ConnectionPathView::Derp { region: relay->0 }
        } else if endpoint is Some && endpoint->0.len() > 0 {
            ConnectionPathView::Direct { latency_ms: None }
        } else {
            match first_bool_spec(v, seq!["Active"@, "active"@]) {
                Some(true) => ConnectionPathView::Unknown("active without endpoint"@),
                Some(false) => ConnectionPathView::Idle,
                None => ConnectionPathView::Unknown("path not returned"@),
            }
        },
    }
}

pub fn parse_path(v: &JsonValue, endpoint: Option<&str>, relay: Option<&str>) -> (r: ConnectionPath)
    ensures
        r@ == path_spec(
            *v,
            match endpoint {
                Some(e) => Some(e@),
                None => None,
            },
            match relay {
                Some(x) => Some(x@),
                None => None,
            },
        ),
{
    let peer_names = ["PeerRelay", "PeerRelayNode", "peerRelay"];
    let active_names = ["Active", "active"];
    proof {
        assert(names_view(peer_names@) =~= seq!["PeerRelay"@, "PeerRelayNode"@, "peerRelay"@]);
        assert(names_view(active_names@) =~= seq!["Active"@, "active"@]);
    }
    if let Some(peer) = first_string(v, &peer_names) {
        return ConnectionPath::PeerRelay { peer };
    }
    if let Some(x) = relay {
        let c = chars_of(x);
        if c.len() > 0 && !eq_ignore_ascii_case(&c, &chars_of("false")) {
            return ConnectionPath::Derp { region: x.to_owned() };
        }
    }
    if let Some(e) = endpoint {
        if !e.is_empty() {
            return ConnectionPath::Direct { latency_ms: None };
        }
    }
    match first_bool(v, &active_names) {
        Some(true) => ConnectionPath::Unknown("active without endpoint".to_owned()),
        Some(false) => ConnectionPath::Idle,
        None => ConnectionPath::Unknown("path not returned".to_owned()),
    }
}

/// A tailnet's name: a non-empty string, or the first name of an object.
pub open spec fn name_spec(v: Option<JsonValue>) -> Option<Seq<char>> {
    match v {
        Some(JsonValue::String(s)) => if s@.len() > 0 {
            Some(s@)
        } else {
            None
        },
        Some(JsonValue::Object { .. }) => first_string_spec(v->0, seq!["Name"@, "Domain"@, "ID"@, "Id"@]),
        _ => None,
    }
}

pub fn parse_name(v: Option<&JsonValue>) -> (r: Option<String>)
    ensures
        opt_view(r) == name_spec(opt_ref(v)),
{
    match v {
        Some(JsonValue::String(s)) => if !s.as_str().is_empty() {
            Some(s.clone())
        } else {
            None
        },
        Some(x) => if matches!(x, JsonValue::Object { .. }) {
            let names = ["Name", "Domain", "ID", "Id"];
            proof {
                assert(names_view(names@) =~= seq!["Name"@, "Domain"@, "ID"@, "Id"@]);
            }
            first_string(x, &names)
        } else {
            None
        },
        None => None,
    }
}

/// The spec-level picture of a device read from a status; its capabilities
/// as a map.
pub ghost struct NodeView {
    pub id: Seq<char>,
    pub public_key: Option<Seq<char>>,
    pub display_name: Seq<char>,
    pub hostname: Seq<char>,
    pub dns_name: Option<Seq<char>>,
    pub os: OperatingSystemView,
    pub version: Option<Seq<char>>,
    pub owner_label: Option<Seq<char>>,
    pub user_id: Option<Seq<char>>,
    pub tags: Seq<Seq<char>>,
    pub tailscale_ips: Seq<Seq<char>>,
    pub advertised_routes: Seq<Seq<char>>,
    pub current_endpoint: Option<Seq<char>>,
    pub relay_region: Option<Seq<char>>,
    pub path: ConnectionPathView,
    pub online: Option<bool>,
    pub active: bool,
    pub rx_bytes: Option<u64>,
    pub tx_bytes: Option<u64>,
    pub created_at: Option<u64>,
    pub last_seen: Option<u64>,
    pub last_handshake: Option<u64>,
    pub exit_node: bool,
    pub exit_node_option: bool,
    pub ssh_host_keys_present: bool,
    pub shared: bool,
    pub capabilities: Map<Seq<char>, bool>,
}

pub open spec fn node_id_names() -> Seq<Seq<char>> {
    seq!["ID"@, "Id"@, "NodeID"@, "NodeId"@]
}

pub open spec fn created_names() -> Seq<Seq<char>> {
    seq!["Created"@, "CreatedAt"@, "createdAt"@]
}

pub open spec fn seen_names() -> Seq<Seq<char>> {
    seq!["LastSeen"@, "lastSeen"@]
}

pub open spec fn handshake_names() -> Seq<Seq<char>> {
    seq!["LastHandshake"@, "lastHandshake"@]
}

/// A node of a status: an object with a stable identity, read field by field
/// under the names the daemon has used for each; `users` labels its owner.
pub open spec fn node_spec(v: JsonValue, users: Map<Seq<char>, Seq<char>>) -> Result<NodeView, Seq<char>> {
    if !(v is Object) {
        Err("local node was not an object"@)
    } else {
        match first_string_spec(v, node_id_names()) {
            None => Err("local node has no stable identity"@),
            Some(id) => {
                let display = match first_string_spec(v, seq!["HostName"@, "Hostname"@, "Name"@, "DNSName"@]) {
                    Some(x) => x,
                    None => id,
                };
                let hostname = match first_string_spec(v, seq!["HostName"@, "Hostname"@, "Name"@]) {
                    Some(x) => x,
                    None => display,
                };
                let user_id = first_string_spec(v, seq!["UserID"@, "UserId"@, "userId"@]);
                let caps = node_caps(v);
                let endpoint = first_string_spec(v, seq!["CurAddr"@, "CurrentEndpoint"@, "Endpoint"@]);
                let relay = first_string_spec(v, seq!["Relay"@, "RelayRegion"@, "DERP"@]);
                Ok(NodeView {
                    id,
                    public_key: first_string_spec(v, seq!["PublicKey"@, "publicKey"@]),
                    display_name: display,
                    hostname,
                    dns_name: first_string_spec(v, seq!["DNSName"@, "DnsName"@, "dnsName"@]),
                    os: os_spec(first_string_spec(v, seq!["OS"@, "Os"@, "os"@])),
                    version: first_string_spec(v, seq!["ClientVersion"@, "Version"@, "version"@]),
                    owner_label: match user_id {
                        Some(u) => map_get(users, u),
                        None => None,
                    },
                    user_id,
                    tags: parse_strings_spec(lookup(v, seq!["Tags"@, "tags"@])),
                    tailscale_ips: parse_strings_spec(
                        lookup(v, seq!["TailscaleIPs"@, "TailscaleIps"@, "Addresses"@, "IPs"@]),
                    ),
                    advertised_routes: parse_strings_spec(lookup(v, seq!["AdvertisedRoutes"@, "Routes"@])),
                    current_endpoint: endpoint,
                    relay_region: relay,
                    path: path_spec(v, endpoint, relay),
                    online: first_bool_spec(v, seq!["Online"@, "online"@]),
                    active: first_bool_spec(v, seq!["Active"@, "active"@]) == Some(true),
                    rx_bytes: first_u64_spec(v, seq!["RxBytes"@, "RXBytes"@, "rxBytes"@]),
                    tx_bytes: first_u64_spec(v, seq!["TxBytes"@, "TXBytes"@, "txBytes"@]),
                    created_at: first_timestamp_spec(v, created_names()),
                    last_seen: first_timestamp_spec(v, seen_names()),
                    last_handshake: first_timestamp_spec(v, handshake_names()),
                    exit_node: first_bool_spec(v, seq!["ExitNode"@, "IsExitNode"@]) == Some(true),
                    exit_node_option: first_bool_spec(v, seq!["ExitNodeOption"@, "IsExitNodeOption"@])
                        == Some(true),
                    ssh_host_keys_present: parse_strings_spec(lookup(v, seq!["SSHHostKeys"@, "SshHostKeys"@])).len()
                        > 0 || cap_on(caps, "ssh"@),
                    shared: first_bool_spec(v, seq!["ShareeNode"@, "Shared"@, "shared"@]) == Some(true)
                        || cap_on(caps, "shared"@),
                    capabilities: caps,
                })
            },
        }
    }
}

/// `d` is the device that `n` describes.
pub open spec fn device_is(d: LocalDevice, n: NodeView) -> bool {
    &&& d.id@ == n.id
    &&& opt_view(d.public_key) == n.public_key
    &&& d.display_name@ == n.display_name
    &&& d.hostname@ == n.hostname
    &&& opt_view(d.dns_name) == n.dns_name
    &&& d.os@ == n.os
    &&& opt_view(d.version) == n.version
    &&& opt_view(d.owner_label) == n.owner_label
    &&& opt_view(d.user_id) == n.user_id
    &&& views(d.tags@) == n.tags
    &&& views(d.tailscale_ips@) == n.tailscale_ips
    &&& views(d.advertised_routes@) == n.advertised_routes
    &&& opt_view(d.current_endpoint) == n.current_endpoint
    &&& opt_view(d.relay_region) == n.relay_region
    &&& d.path@ == n.path
    &&& d.online == n.online
    &&& d.active == n.active
    &&& d.rx_bytes == n.rx_bytes
    &&& d.tx_bytes == n.tx_bytes
    &&& d.created_at == n.created_at
    &&& d.last_seen == n.last_seen
    &&& d.last_handshake == n.last_handshake
    &&& d.exit_node == n.exit_node
    &&& d.exit_node_option == n.exit_node_option
    &&& d.ssh_host_keys_present == n.ssh_host_keys_present
    &&& d.shared == n.shared
    &&& lists_map(flag_views(d.capabilities@), n.capabilities)
}

/// A node of `status` (see `node_spec`), its owner labelled from the users of
/// `status`.
pub fn parse_node(v: &JsonValue, status: &JsonValue) -> (r: Result<LocalDevice, String>)
    ensures
        match node_spec(*v, users_spec(*status)) {
            Ok(n) => r matches Ok(d) && device_is(d, n),
            Err(e) => r matches Err(x) && x@ == e,
        },
{
    if !matches!(v, JsonValue::Object { .. }) {
        return Err("local node was not an object".to_owned());
    }
    let ids = ["ID", "Id", "NodeID", "NodeId"];
    let display_names = ["HostName", "Hostname", "Name", "DNSName"];
    let host_names = ["HostName", "Hostname", "Name"];
    let user_names = ["UserID", "UserId", "userId"];
    let ssh_names = ["SSHHostKeys", "SshHostKeys"];
    let shared_names = ["ShareeNode", "Shared", "shared"];
    let endpoint_names = ["CurAddr", "CurrentEndpoint", "Endpoint"];
    let relay_names = ["Relay", "RelayRegion", "DERP"];
    let key_names = ["PublicKey", "publicKey"];
    let dns_names = ["DNSName", "DnsName", "dnsName"];
    let os_names = ["OS", "Os", "os"];
    let version_names = ["ClientVersion", "Version", "version"];
    let tag_names = ["Tags", "tags"];
    let ip_names = ["TailscaleIPs", "TailscaleIps", "Addresses", "IPs"];
    let route_names = ["AdvertisedRoutes", "Routes"];
    let online_names = ["Online", "online"];
    let active_names = ["Active", "active"];
    let rx_names = ["RxBytes", "RXBytes", "rxBytes"];
    let tx_names = ["TxBytes", "TXBytes", "txBytes"];
    let created = ["Created", "CreatedAt", "createdAt"];
    let seen = ["LastSeen", "lastSeen"];
    let handshake = ["LastHandshake", "lastHandshake"];
    let exit_names = ["ExitNode", "IsExitNode"];
    let option_names = ["ExitNodeOption", "IsExitNodeOption"];
    proof {
        assert(names_view(ids@) =~= node_id_names());
        assert(names_view(display_names@) =~= seq!["HostName"@, "Hostname"@, "Name"@, "DNSName"@]);
        assert(names_view(host_names@) =~= seq!["HostName"@, "Hostname"@, "Name"@]);
        assert(names_view(user_names@) =~= seq!["UserID"@, "UserId"@, "userId"@]);
        assert(names_view(ssh_names@) =~= seq!["SSHHostKeys"@, "SshHostKeys"@]);
        assert(names_view(shared_names@) =~= seq!["ShareeNode"@, "Shared"@, "shared"@]);
        assert(names_view(endpoint_names@) =~= seq!["CurAddr"@, "CurrentEndpoint"@, "Endpoint"@]);
        assert(names_view(relay_names@) =~= seq!["Relay"@, "RelayRegion"@, "DERP"@]);
        assert(names_view(key_names@) =~= seq!["PublicKey"@, "publicKey"@]);
        assert(names_view(dns_names@) =~= seq!["DNSName"@, "DnsName"@, "dnsName"@]);
        assert(names_view(os_names@) =~= seq!["OS"@, "Os"@, "os"@]);
        assert(names_view(version_names@) =~= seq!["ClientVersion"@, "Version"@, "version"@]);
        assert(names_view(tag_names@) =~= seq!["Tags"@, "tags"@]);
        assert(names_view(ip_names@) =~= seq!["TailscaleIPs"@, "TailscaleIps"@, "Addresses"@, "IPs"@]);
        assert(names_view(route_names@) =~= seq!["AdvertisedRoutes"@, "Routes"@]);
        assert(names_view(online_names@) =~= seq!["Online"@, "online"@]);
        assert(names_view(active_names@) =~= seq!["Active"@, "active"@]);
        assert(names_view(rx_names@) =~= seq!["RxBytes"@, "RXBytes"@, "rxBytes"@]);
        assert(names_view(tx_names@) =~= seq!["TxBytes"@, "TXBytes"@, "txBytes"@]);
        assert(names_view(created@) =~= created_names());
        assert(names_view(seen@) =~= seen_names());
        assert(names_view(handshake@) =~= handshake_names());
        assert(names_view(exit_names@) =~= seq!["ExitNode"@, "IsExitNode"@]);
        assert(names_view(option_names@) =~= seq!["ExitNodeOption"@, "IsExitNodeOption"@]);
    }
    let id = match first_string(v, &ids) {
        Some(x) => x,
        None => {
            return Err("local node has no stable identity".to_owned());
        },
    };
    let display_name = match first_string(v, &display_names) {
        Some(x) => x,
        None => id.clone(),
    };
    let hostname = match first_string(v, &host_names) {
        Some(x) => x,
        None => display_name.clone(),
    };
    let user_id = first_string(v, &user_names);
    let owner = match &user_id {
        Some(u) => owner_label(status, u.as_str()),
        None => None,
    };
    let capabilities = parse_capabilities(v);
    let ghost caps = node_caps(*v);
    let has_keys = parse_strings(lookup_field(v, &ssh_names)).len() > 0;
    let ssh_host_keys_present = has_keys || flag_is_on(&capabilities, "ssh", Ghost(caps));
    let sharee = match first_bool(v, &shared_names) {
        Some(b) => b,
        None => false,
    };
    let shared = sharee || flag_is_on(&capabilities, "shared", Ghost(caps));
    let endpoint = first_string(v, &endpoint_names);
    let relay = first_string(v, &relay_names);
    let path = parse_path(
        v,
        match &endpoint {
            Some(e) => Some(e.as_str()),
            None => None,
        },
        match &relay {
            Some(x) => Some(x.as_str()),
            None => None,
        },
    );
    let active = match first_bool(v, &active_names) {
        Some(b) => b,
        None => false,
    };
    let exit_node = match first_bool(v, &exit_names) {
        Some(b) => b,
        None => false,
    };
    let exit_node_option = match first_bool(v, &option_names) {
        Some(b) => b,
        None => false,
    };
    Ok(LocalDevice {
        id,
        public_key: first_string(v, &key_names),
        display_name,
        hostname,
        dns_name: first_string(v, &dns_names),
        os: parse_os(first_string(v, &os_names)),
        version: first_string(v, &version_names),
        owner_label: owner,
        user_id,
        tags: parse_strings(lookup_field(v, &tag_names)),
        tailscale_ips: parse_strings(lookup_field(v, &ip_names)),
        advertised_routes: parse_strings(lookup_field(v, &route_names)),
        current_endpoint: endpoint,
        relay_region: relay,
        path,
        online: first_bool(v, &online_names),
        active,
        rx_bytes: first_u64(v, &rx_names),
        tx_bytes: first_u64(v, &tx_names),
        created_at: first_timestamp(v, &created),
        last_seen: first_timestamp(v, &seen),
        last_handshake: first_timestamp(v, &handshake),
        exit_node,
        exit_node_option,
        ssh_host_keys_present,
        shared,
        capabilities,
    })
}

/// The nodes among `values` that read as devices, in order; the others are
/// left out.
pub open spec fn nodes_of(values: Seq<JsonValue>, users: Map<Seq<char>, Seq<char>>) -> Seq<NodeView>
    decreases values.len(),
{
    if values.len() == 0 {
        Seq::empty()
    } else {
        let rest = nodes_of(values.drop_last(), users);
        match node_spec(values.last(), users) {
            Ok(n) => rest.push(n),
            Err(_) => rest,
        }
    }
}

/// The values of an object's entries, in order.
pub open spec fn entry_values(entries: Seq<(String, JsonValue)>) -> Seq<JsonValue> {
    entries.map_values(|e: (String, JsonValue)| e.1)
}

pub open spec fn peer_names() -> Seq<Seq<char>> {
    seq!["Peer"@, "Peers"@, "peer"@, "peers"@]
}

pub open spec fn self_names() -> Seq<Seq<char>> {
    seq!["Self"@, "self"@]
}

/// The peer nodes of a status: the values of an object or the items of an
/// array; nothing where there is no collection, and `None` where it is
/// neither.
pub open spec fn peer_values(v: JsonValue) -> Option<Seq<JsonValue>> {
    match lookup(v, peer_names()) {
        None => Some(Seq::empty()),
        Some(JsonValue::Object { entries, .. }) => Some(entry_values(entries@)),
        Some(JsonValue::Array { items, .. }) => Some(items@),
        Some(_) => None,
    }
}

/// `ds` are the devices that `ns` describe, in order.
pub open spec fn devices_are(ds: Seq<LocalDevice>, ns: Seq<NodeView>) -> bool {
    ds.len() == ns.len() && forall|i: int| 0 <= i < ds.len() ==> device_is(#[trigger] ds[i], ns[i])
}

/// `snap` is what the status `v` says, with `node` for this machine and
/// `peers` for its peers.
pub open spec fn snapshot_matches(
    snap: LocalSnapshot,
    v: JsonValue,
    node: NodeView,
    peers: Seq<NodeView>,
    client_version: Seq<char>,
    daemon_version: Option<Seq<char>>,
    observed_at: u64,
) -> bool {
    let health = parse_strings_spec(lookup(v, seq!["Health"@, "health"@]));
    &&& snap.observed_at == observed_at
    &&& snap.client_version@ == client_version
    &&& opt_view(snap.daemon_version) == daemon_version
    &&& snap.backend_state@ == backend_state_spec(
        first_string_spec(v, seq!["BackendState"@, "backendState"@]),
        health,
        first_string_spec(v, seq!["AuthURL"@, "AuthUrl"@, "LoginURL"@, "loginUrl"@]),
    )
    &&& views(snap.health_messages@) == health
    &&& opt_view(snap.current_tailnet) == name_spec(lookup(v, seq!["CurrentTailnet"@, "Tailnet"@]))
    &&& opt_view(snap.magic_dns_suffix) == first_string_spec(v, seq!["MagicDNSSuffix"@, "magicDnsSuffix"@])
    &&& views(snap.cert_domains@) == parse_strings_spec(lookup(v, seq!["CertDomains"@, "CertificateDomains"@]))
    &&& device_is(snap.self_node, node)
    &&& devices_are(snap.peers@, peers)
}

fn push_node(
    out: &mut Vec<LocalDevice>,
    v: &JsonValue,
    status: &JsonValue,
    Ghost(done): Ghost<Seq<JsonValue>>,
)
    requires
        devices_are(old(out)@, nodes_of(done, users_spec(*status))),
    ensures
        devices_are(final(out)@, nodes_of(done.push(*v), users_spec(*status))),
{
    proof {
        assert(done.push(*v).drop_last() =~= done);
    }
    match parse_node(v, status) {
        Ok(d) => {
            let ghost before = out@;
            out.push(d);
            proof {
                let ns = nodes_of(done.push(*v), users_spec(*status));
                assert(out@ == before.push(d));
                assert forall|i: int| 0 <= i < out@.len() implies device_is(#[trigger] out@[i], ns[i]) by {
                    if i < before.len() {
                        assert(out@[i] == before[i]);
                    }
                }
            }
        },
        Err(_) => {},
    }
}

/// What the daemon's status report says. `parsed` is the report read as
/// JSON, or the parser's message; the snapshot records `client_version`,
/// `daemon_version` and `observed_at`.
pub fn decode_status(
    parsed: &Result<JsonValue, String>,
    client_version: String,
    daemon_version: Option<String>,
    observed_at: u64,
) -> (r: Result<LocalSnapshot, String>)
    ensures
        match parsed {
            Err(m) => r matches Err(e) && e@ == "invalid JSON: "@ + m@,
            Ok(v) => match lookup(*v, self_names()) {
                None => r matches Err(e) && e@ == "required self node was not returned"@,
                Some(s) => match node_spec(s, users_spec(*v)) {
                    Err(e0) => r matches Err(e) && e@ == e0,
                    Ok(n) => match peer_values(*v) {
                        None => r matches Err(e) && e@ == "peer collection was not an object or array"@,
                        Some(values) => r matches Ok(snap) && snapshot_matches(
                            snap,
                            *v,
                            n,
                            nodes_of(values, users_spec(*v)),
                            client_version@,
                            opt_view(daemon_version),
                            observed_at,
                        ),
                    },
                },
            },
        },
{
    let value = match parsed {
        Err(m) => {
            let mut d = chars_of("invalid JSON: ");
            append_str(&mut d, m.as_str());
            return Err(string_from_chars(&d));
        },
        Ok(v) => v,
    };
    let self_keys = ["Self", "self"];
    let peer_keys = ["Peer", "Peers", "peer", "peers"];
    let health_keys = ["Health", "health"];
    let state_keys = ["BackendState", "backendState"];
    let auth_keys = ["AuthURL", "AuthUrl", "LoginURL", "loginUrl"];
    let tailnet_keys = ["CurrentTailnet", "Tailnet"];
    let suffix_keys = ["MagicDNSSuffix", "magicDnsSuffix"];
    let cert_keys = ["CertDomains", "CertificateDomains"];
    proof {
        assert(names_view(self_keys@) =~= self_names());
        assert(names_view(peer_keys@) =~= peer_names());
        assert(names_view(health_keys@) =~= seq!["Health"@, "health"@]);
        assert(names_view(state_keys@) =~= seq!["BackendState"@, "backendState"@]);
        assert(names_view(auth_keys@) =~= seq!["AuthURL"@, "AuthUrl"@, "LoginURL"@, "loginUrl"@]);
        assert(names_view(tailnet_keys@) =~= seq!["CurrentTailnet"@, "Tailnet"@]);
        assert(names_view(suffix_keys@) =~= seq!["MagicDNSSuffix"@, "magicDnsSuffix"@]);
        assert(names_view(cert_keys@) =~= seq!["CertDomains"@, "CertificateDomains"@]);
    }
    let node = match lookup_field(value, &self_keys) {
        None => {
            return Err("required self node was not returned".to_owned());
        },
        Some(n) => n,
    };
    let self_node = match parse_node(node, value) {
        Ok(d) => d,
        Err(e) => {
            return Err(e);
        },
    };
    let mut peers: Vec<LocalDevice> = Vec::new();
    match lookup_field(value, &peer_keys) {
        None => {},
        Some(JsonValue::Object { entries, .. }) => {
            let ghost values = entry_values(entries@);
            let mut i: usize = 0;
            proof {
                assert(values.take(0) =~= Seq::<JsonValue>::empty());
            }
            while i < entries.len()
                invariant
                    i <= entries@.len(),
                    values == entry_values(entries@),
                    devices_are(peers@, nodes_of(values.take(i as int), users_spec(*value))),
                decreases entries.len() - i,
            {
                proof {
                    assert(values[i as int] == entries@[i as int].1);
                    assert(values.take(i + 1) =~= values.take(i as int).push(entries@[i as int].1));
                }
                push_node(&mut peers, &entries[i].1, value, Ghost(values.take(i as int)));
                i = i + 1;
            }
            proof {
                assert(values.take(entries@.len() as int) =~= values);
            }
        },
        Some(JsonValue::Array { items, .. }) => {
            let mut i: usize = 0;
            proof {
                assert(items@.take(0) =~= Seq::<JsonValue>::empty());
            }
            while i < items.len()
                invariant
                    i <= items@.len(),
                    devices_are(peers@, nodes_of(items@.take(i as int), users_spec(*value))),
                decreases items.len() - i,
            {
                proof {
                    assert(items@.take(i + 1) =~= items@.take(i as int).push(items@[i as int]));
                }
                push_node(&mut peers, &items[i], value, Ghost(items@.take(i as int)));
                i = i + 1;
            }
            proof {
                assert(items@.take(items@.len() as int) =~= items@);
            }
        },
        Some(_) => {
            return Err("peer collection was not an object or array".to_owned());
        },
    }
    let health_messages = parse_strings(lookup_field(value, &health_keys));
    let state = first_string(value, &state_keys);
    let auth_url = first_string(value, &auth_keys);
    let backend = backend_state(
        match &state {
            Some(x) => Some(x.as_str()),
            None => None,
        },
        &health_messages,
        auth_url,
    );
    proof {
        assert(health_messages@.map_values(|m: String| m@) == views(health_messages@));
    }
    Ok(LocalSnapshot {
        observed_at,
        client_version,
        daemon_version,
        backend_state: backend,
        health_messages,
        current_tailnet: parse_name(lookup_field(value, &tailnet_keys)),
        magic_dns_suffix: first_string(value, &suffix_keys),
        cert_domains: parse_strings(lookup_field(value, &cert_keys)),
        self_node,
        peers,
    })
}

/// The daemon's status and the version it announced.
#[derive(Debug, Clone, PartialEq, Eq)]
pub struct LocalStatusSnapshot {
    pub snapshot: LocalSnapshot,
    pub server_version: Option<String>,
}

/// Why a status report cannot be read, where it cannot.
pub open spec fn status_failure(v: JsonValue) -> Option<Seq<char>> {
    match lookup(v, self_names()) {
        None => Some("required self node was not returned"@),
        Some(s) => match node_spec(s, users_spec(v)) {
            Err(e) => Some(e),
            Ok(_) => match peer_values(v) {
                None => Some("peer collection was not an object or array"@),
                Some(_) => None,
            },
        },
    }
}

/// `snap` is what a readable status report `v` says.
pub open spec fn status_reads_as(snap: LocalSnapshot, v: JsonValue, client_version: Seq<char>, daemon_version: Option<Seq<char>>, observed_at: u64) -> bool {
    match lookup(v, self_names()) {
        Some(s) => match node_spec(s, users_spec(v)) {
            Ok(n) => match peer_values(v) {
                Some(values) => snapshot_matches(snap, v, n, nodes_of(values, users_spec(v)), client_version, daemon_version, observed_at),
                None => false,
            },
            Err(_) => false,
        },
        None => false,
    }
}

pub open spec fn decode_error(operation: Seq<char>, e: LocalDaemonError, detail: Seq<char>) -> bool {
    e matches LocalDaemonError::Decode { operation: o, detail: d } && o@ == operation && d@ == bounded_spec(
        detail,
        DETAIL_LIMIT as nat,
        "\n...[detail truncated]"@,
    )
}

/// The body of a status response as text, or why it is not.
pub fn status_text(body: &[u8]) -> (r: Result<String, LocalDaemonError>)
    ensures
        if valid_utf8(body@) {
            r matches Ok(t) && t@ == utf8_text(body@)
        } else {
            r matches Err(e) && decode_error("status"@, e, "response was not UTF-8: "@ + utf8_error_text(body@))
        },
{
    match utf8_with_message(body) {
        Ok(t) => Ok(t),
        Err(m) => {
            let mut d = chars_of("response was not UTF-8: ");
            append_str(&mut d, m.as_str());
            let detail = bounded_detail(string_from_chars(&d).as_str());
            Err(LocalDaemonError::Decode { operation: "status".to_owned(), detail })
        },
    }
}

/// The status snapshot of a report read at `observed_at`: the announced
/// server version stands for the client version (`unknown` where none was
/// announced); a report that cannot be read is a decode failure of `status`.
/// `parsed` is the report read as JSON, or the parser's message.
pub fn status_snapshot(
    parsed: &Result<JsonValue, String>,
    server_version: Option<String>,
    observed_at: u64,
) -> (r: Result<LocalStatusSnapshot, LocalDaemonError>)
    ensures
        match parsed {
            Err(m) => r matches Err(e) && decode_error("status"@, e, "invalid JSON: "@ + m@),
            Ok(v) => match status_failure(*v) {
                Some(f) => r matches Err(e) && decode_error("status"@, e, f),
                None => r matches Ok(s) && opt_view(s.server_version) == opt_view(server_version)
                    && status_reads_as(
                    s.snapshot,
                    *v,
                    match server_version {
                        Some(x) => x@,
                        None => "unknown"@,
                    },
                    None,
                    observed_at,
                ),
            },
        },
{
    let client_version = match &server_version {
        Some(x) => x.clone(),
        None => "unknown".to_owned(),
    };
    match decode_status(parsed, client_version, None, observed_at) {
        Ok(snapshot) => Ok(LocalStatusSnapshot { snapshot, server_version }),
        Err(detail) => Err(LocalDaemonError::Decode { operation: "status".to_owned(), detail: bounded_detail(detail.as_str()) }),
    }
}

/// The daemon's state name decides the state, in any ASCII case: a login
/// word (`needslogin`, `needs_login`, `needs machine auth`,
/// `needsmachineauth`) gives `NeedsLogin` with the login address; a stopped
/// word (`stopped`, `nostate`, `no_state`) gives `Stopped` whatever the health
/// messages say; any other name, or none, gives `Running` when there are no
/// health messages and `Degraded` with them otherwise.
pub proof fn backend_state_names_decide(name: Option<Seq<char>>, health: Seq<Seq<char>>, auth_url: Option<Seq<char>>)
    ensures
        (name matches Some(v) && (lower_seq(v) == "needslogin"@ || lower_seq(v) == "needs_login"@
            || lower_seq(v) == "needs machine auth"@ || lower_seq(v) == "needsmachineauth"@))
            ==> backend_state_spec(name, health, auth_url) == (LocalStateView::NeedsLogin { auth_url }),
        (name matches Some(v) && (lower_seq(v) == "stopped"@ || lower_seq(v) == "nostate"@
            || lower_seq(v) == "no_state"@)) ==> backend_state_spec(name, health, auth_url)
            == LocalStateView::Stopped,
        !(name matches Some(v) && (lower_seq(v) == "needslogin"@ || lower_seq(v) == "needs_login"@
            || lower_seq(v) == "needs machine auth"@ || lower_seq(v) == "needsmachineauth"@
            || lower_seq(v) == "stopped"@ || lower_seq(v) == "nostate"@ || lower_seq(v) == "no_state"@))
            ==> backend_state_spec(name, health, auth_url) == (if health.len() == 0 {
            LocalStateView::Running
        } else {
            LocalStateView::Degraded { health_messages: health }
        }),
{
    reveal_strlit("needslogin");
    reveal_strlit("needs_login");
    reveal_strlit("needs machine auth");
    reveal_strlit("needsmachineauth");
    reveal_strlit("stopped");
    reveal_strlit("nostate");
    reveal_strlit("no_state");
    assert("needslogin"@.len() == 10 && "needs_login"@.len() == 11 && "needs machine auth"@.len() == 18
        && "needsmachineauth"@.len() == 16);
    assert("stopped"@.len() == 7 && "nostate"@.len() == 7 && "no_state"@.len() == 8);
}

} // verus!

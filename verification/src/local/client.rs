//! The `tailscale` command-line client: commands that change preferences,
//! what the client reports about itself, and how its failures are shown.
use vstd::prelude::*;

use crate::detail::{bounded_prefix_bytes, prefix_bytes_spec};
use crate::json::JsonValue;
use crate::domain::{
    LocalCapabilities, ExecutableSource, ExitNodeRequest, ExitNodeSelection, LocalExecutable, LocalFailure,
    LocalFailureKind, LocalFailureView, LocalState, LocalStateView, PreferenceRequest,
};
use crate::local::accounts::AccountError;
use crate::local::policy::PolicyError;
use crate::local::process::{
    args_are, command_with_words, is_new_command, lemma_args_are_views, LocalCommand,
    LocalOperation, LocalProcessError,
};
use crate::numbers::{format_i64, signed_decimal};
use crate::paths::{
    component_count, extension_is_none, has_several_components, is_absolute, join, join_spec,
    path_extension_is_none, path_is_absolute, path_with_extension, with_extension_spec,
};
use crate::domain::opt_view;
use crate::text::{
    ascii_tokens_of, owned_strings, split_ascii_whitespace, split_chars, split_on, append_chars, append_str, chars_eq_str, chars_of, lower_seq, lowercase, seq_contains,
    str_contains, string_from_chars, trim, trim_chars,
};

verus! {

/// Failure details are cut to this many bytes.
pub const DETAIL_LIMIT: usize = 4096;

#[derive(Debug, Clone, PartialEq, Eq)]
pub enum PreferenceCommandError {
    EmptyRequest,
    MissingMacAppConnectorRisk,
    UnexpectedMacAppConnectorRisk,
    EmptyText { field: String },
}

impl PreferenceCommandError {
    pub open spec fn message_spec(&self) -> Seq<char> {
        match self {
            PreferenceCommandError::EmptyRequest => "no preference fields were changed"@,
            PreferenceCommandError::MissingMacAppConnectorRisk =>
                "enabling the app connector requires explicit mac-app-connector risk acceptance"@,
            PreferenceCommandError::UnexpectedMacAppConnectorRisk =>
                "mac-app-connector risk acceptance requires connector=true"@,
            PreferenceCommandError::EmptyText { field } => field@ + " must be non-empty"@,
        }
    }

    /// The text that describes the error.
    pub fn message(&self) -> (r: String)
        ensures
            r@ == self.message_spec(),
    {
        match self {
            PreferenceCommandError::EmptyRequest => "no preference fields were changed".to_owned(),
            PreferenceCommandError::MissingMacAppConnectorRisk =>
                "enabling the app connector requires explicit mac-app-connector risk acceptance".to_owned(),
            PreferenceCommandError::UnexpectedMacAppConnectorRisk =>
                "mac-app-connector risk acceptance requires connector=true".to_owned(),
            PreferenceCommandError::EmptyText { field } => {
                let mut out = chars_of(field.as_str());
                append_str(&mut out, " must be non-empty");
                string_from_chars(&out)
            },
        }
    }
}

pub open spec fn bool_text(b: bool) -> Seq<char> {
    if b {
        "true"@
    } else {
        "false"@
    }
}

pub fn bool_str(b: bool) -> (r: &'static str)
    ensures
        r@ == bool_text(b),
{
    if b {
        "true"
    } else {
        "false"
    }
}

pub open spec fn opt_flag(name: Seq<char>, v: Option<bool>) -> Seq<Seq<char>> {
    match v {
        Some(b) => seq![name + bool_text(b)],
        None => Seq::<Seq<char>>::empty(),
    }
}

pub open spec fn opt_text_flag(name: Seq<char>, v: Option<String>) -> Seq<Seq<char>> {
    match v {
        Some(s) => seq![name + s@],
        None => Seq::<Seq<char>>::empty(),
    }
}

/// The arguments of `tailscale set` for a preference request, in the order
/// the client sends them.
pub open spec fn set_words(r: PreferenceRequest) -> Seq<Seq<char>> {
    seq!["set"@] + opt_flag("--accept-dns="@, r.accept_dns) + opt_flag(
        "--accept-routes="@,
        r.accept_routes,
    ) + opt_flag("--shields-up="@, r.shields_up) + opt_flag("--ssh="@, r.ssh) + opt_flag(
        "--auto-update="@,
        r.automatic_update,
    ) + opt_flag("--update-check="@, r.update_check) + opt_flag(
        "--report-posture="@,
        r.report_posture,
    ) + opt_text_flag("--hostname="@, r.hostname) + opt_text_flag("--nickname="@, r.nickname)
        + opt_flag("--webclient="@, r.web_client)
}

pub open spec fn views(v: Seq<String>) -> Seq<Seq<char>> {
    v.map_values(|a: String| a@)
}

/// `name` followed by `value`, as one argument.
pub fn joined(name: &str, value: &str) -> (r: String)
    ensures
        r@ == name@ + value@,
{
    let mut v = chars_of(name);
    append_str(&mut v, value);
    string_from_chars(&v)
}

fn push_flag(args: &mut Vec<String>, name: &str, value: Option<bool>)
    ensures
        views(final(args)@) == views(old(args)@) + opt_flag(name@, value),
{
    match value {
        Some(b) => {
            let a = joined(name, bool_str(b));
            args.push(a);
            proof {
                assert(views(args@) =~= views(old(args)@) + opt_flag(name@, value));
            }
        },
        None => {
            proof {
                assert(views(args@) =~= views(old(args)@) + opt_flag(name@, value));
            }
        },
    }
}

fn push_text_flag(args: &mut Vec<String>, name: &str, value: &Option<String>)
    ensures
        views(final(args)@) == views(old(args)@) + opt_text_flag(name@, *value),
{
    match value {
        Some(s) => {
            let a = joined(name, s.as_str());
            args.push(a);
            proof {
                assert(views(args@) =~= views(old(args)@) + opt_text_flag(name@, *value));
            }
        },
        None => {
            proof {
                assert(views(args@) =~= views(old(args)@) + opt_text_flag(name@, *value));
            }
        },
    }
}

/// A text preference must not be empty.
pub fn validate_text(value: &str, field: &str) -> (r: Result<(), PreferenceCommandError>)
    ensures
        value@.len() == 0 ==> r is Err && r->Err_0 is EmptyText && r->Err_0->EmptyText_field@
            == field@,
        value@.len() != 0 ==> r is Ok,
{
    if value.is_empty() {
        Err(PreferenceCommandError::EmptyText { field: field.to_owned() })
    } else {
        Ok(())
    }
}

pub open spec fn empty_text_field(r: PreferenceRequest) -> Option<Seq<char>> {
    if r.hostname.is_some() && r.hostname->0@.len() == 0 {
        Some("hostname"@)
    } else if r.nickname.is_some() && r.nickname->0@.len() == 0 {
        Some("nickname"@)
    } else {
        None
    }
}

/// The `tailscale set` command for a preference request.
pub fn set_command(path: &str, timeout_ms: u64, request: &PreferenceRequest) -> (r: Result<
    LocalCommand,
    PreferenceCommandError,
>)
    ensures
        request.is_empty_spec() ==> r == Err::<LocalCommand, PreferenceCommandError>(
            PreferenceCommandError::EmptyRequest,
        ),
        !request.is_empty_spec() && empty_text_field(*request) is Some ==> r is Err && r->Err_0 is EmptyText
            && r->Err_0->EmptyText_field@ == empty_text_field(*request)->0,
        !request.is_empty_spec() && empty_text_field(*request) is None ==> r is Ok && is_new_command(
            r->Ok_0,
            path@,
            LocalOperation::SetPrefs,
            set_words(*request),
        ) && r->Ok_0.timeout_ms == Some(timeout_ms),
{
    if request.is_empty() {
        return Err(PreferenceCommandError::EmptyRequest);
    }
    if let Some(value) = &request.hostname {
        validate_text(value.as_str(), "hostname")?;
    }
    if let Some(value) = &request.nickname {
        validate_text(value.as_str(), "nickname")?;
    }
    let mut args: Vec<String> = Vec::new();
    args.push("set".to_owned());
    proof {
        assert(views(args@) =~= seq!["set"@]);
    }
    push_flag(&mut args, "--accept-dns=", request.accept_dns);
    push_flag(&mut args, "--accept-routes=", request.accept_routes);
    push_flag(&mut args, "--shields-up=", request.shields_up);
    push_flag(&mut args, "--ssh=", request.ssh);
    push_flag(&mut args, "--auto-update=", request.automatic_update);
    push_flag(&mut args, "--update-check=", request.update_check);
    push_flag(&mut args, "--report-posture=", request.report_posture);
    push_text_flag(&mut args, "--hostname=", &request.hostname);
    push_text_flag(&mut args, "--nickname=", &request.nickname);
    push_flag(&mut args, "--webclient=", request.web_client);
    proof {
        lemma_args_are_views(args@, set_words(*request));
    }
    Ok(LocalCommand::new(path.to_owned(), LocalOperation::SetPrefs, args).with_timeout(timeout_ms))
}

/// The exit-node argument: empty to clear it.
pub open spec fn exit_target(s: ExitNodeSelection) -> Seq<char> {
    match s {
        ExitNodeSelection::Disabled => Seq::<char>::empty(),
        ExitNodeSelection::Device { target, .. } => target@,
        ExitNodeSelection::AutoAny => "auto:any"@,
    }
}

pub open spec fn exit_node_words(r: ExitNodeRequest) -> Seq<Seq<char>> {
    seq![
        "set"@,
        "--exit-node="@ + exit_target(r.selection),
        "--exit-node-allow-lan-access="@ + bool_text(
            r.allow_lan_access && !(r.selection is Disabled),
        ),
    ]
}

/// The `tailscale set` command that selects an exit node. LAN access is only
/// ever allowed together with an exit node.
pub fn exit_node_command(path: &str, timeout_ms: u64, request: &ExitNodeRequest) -> (r: LocalCommand)
    ensures
        is_new_command(r, path@, LocalOperation::SetPrefs, exit_node_words(*request)),
        r.timeout_ms == Some(timeout_ms),
{
    let target: String = match &request.selection {
        ExitNodeSelection::Disabled => String::new(),
        ExitNodeSelection::Device { target, .. } => target.clone(),
        ExitNodeSelection::AutoAny => "auto:any".to_owned(),
    };
    let lan = request.allow_lan_access && !matches!(&request.selection, ExitNodeSelection::Disabled);
    let mut args: Vec<String> = Vec::new();
    args.push("set".to_owned());
    args.push(joined("--exit-node=", target.as_str()));
    args.push(joined("--exit-node-allow-lan-access=", bool_str(lan)));
    proof {
        assert(views(args@) =~= exit_node_words(*request));
        lemma_args_are_views(args@, exit_node_words(*request));
    }
    LocalCommand::new(path.to_owned(), LocalOperation::SetPrefs, args).with_timeout(timeout_ms)
}

pub fn version_command(path: &str, timeout_ms: u64) -> (r: LocalCommand)
    ensures
        is_new_command(r, path@, LocalOperation::Version, seq!["version"@, "--json"@, "--daemon"@]),
        r.timeout_ms == Some(timeout_ms),
{
    let r = command_with_words(path, LocalOperation::Version, &["version", "--json", "--daemon"], Some(timeout_ms));
    proof {
        assert(["version", "--json", "--daemon"]@.map_values(|w: &str| w@) =~= seq!["version"@, "--json"@, "--daemon"@]);
    }
    r
}

pub fn up_command(path: &str, timeout_ms: u64) -> (r: LocalCommand)
    ensures
        is_new_command(r, path@, LocalOperation::Up, seq!["up"@]),
        r.timeout_ms == Some(timeout_ms),
{
    let r = command_with_words(path, LocalOperation::Up, &["up"], Some(timeout_ms));
    proof {
        assert(["up"]@.map_values(|w: &str| w@) =~= seq!["up"@]);
    }
    r
}

/// `tailscale down`; accepting the loss of SSH adds the risk flag.
pub fn down_command(path: &str, timeout_ms: u64, accept_lose_ssh: bool) -> (r: LocalCommand)
    ensures
        accept_lose_ssh ==> is_new_command(r, path@, LocalOperation::Down, seq!["down"@, "--accept-risk=lose-ssh"@]),
        !accept_lose_ssh ==> is_new_command(r, path@, LocalOperation::Down, seq!["down"@]),
        r.timeout_ms == Some(timeout_ms),
{
    if accept_lose_ssh {
        let r = command_with_words(path, LocalOperation::Down, &["down", "--accept-risk=lose-ssh"], Some(timeout_ms));
        proof {
            assert(["down", "--accept-risk=lose-ssh"]@.map_values(|w: &str| w@) =~= seq!["down"@, "--accept-risk=lose-ssh"@]);
        }
        r
    } else {
        let r = command_with_words(path, LocalOperation::Down, &["down"], Some(timeout_ms));
        proof {
            assert(["down"]@.map_values(|w: &str| w@) =~= seq!["down"@]);
        }
        r
    }
}

/// The command with the socket path set, when one is given.
pub fn apply_socket_path(command: LocalCommand, socket_path: Option<&str>) -> (r: LocalCommand)
    ensures
        socket_path is None ==> r == command,
        socket_path is Some ==> r == (LocalCommand { socket_path: r.socket_path, ..command })
            && r.socket_path is Some && r.socket_path->0@ == socket_path->0@,
{
    match socket_path {
        Some(p) => command.with_socket_path(p.to_owned()),
        None => command,
    }
}

#[derive(Debug, Clone, Copy, PartialEq, Eq, Structural)]
pub enum HostPlatform {
    Unix,
    Windows,
}

#[derive(Debug, Clone, PartialEq, Eq)]
pub struct ResolvedExecutable {
    pub path: String,
    pub socket_path: Option<String>,
    pub source: ExecutableSource,
}

#[derive(Debug, Clone, PartialEq, Eq)]
pub enum ExecutableError {
    NotFound { searched: Vec<String> },
    PermissionDenied { path: String },
    InvalidPath,
}

impl ExecutableError {
    /// Where Tale looked, in the order it looked.
    pub fn searched(&self) -> (r: Vec<String>)
        ensures
            self is NotFound ==> views(r@) == views(self->NotFound_searched@),
            self is PermissionDenied ==> views(r@) == seq![self->PermissionDenied_path@],
            self is InvalidPath ==> r@.len() == 0,
    {
        match self {
            ExecutableError::NotFound { searched } => {
                let mut out: Vec<String> = Vec::new();
                let mut i: usize = 0;
                while i < searched.len()
                    invariant
                        i <= searched@.len(),
                        out@.len() == i,
                        forall|k: int| 0 <= k < i ==> #[trigger] out@[k]@ == searched@[k]@,
                    decreases searched.len() - i,
                {
                    out.push(searched[i].clone());
                    i = i + 1;
                }
                proof {
                    assert(views(out@) =~= views(searched@));
                }
                out
            },
            ExecutableError::PermissionDenied { path } => {
                let mut out: Vec<String> = Vec::new();
                out.push(path.clone());
                proof {
                    assert(views(out@) =~= seq![path@]);
                }
                out
            },
            ExecutableError::InvalidPath => Vec::new(),
        }
    }
}

#[derive(Debug, Clone, PartialEq, Eq)]
pub struct VersionInfo {
    pub version: String,
    pub daemon_version: Option<String>,
    pub build: Option<String>,
}

#[derive(Debug, Clone, PartialEq, Eq)]
pub enum ClientError {
    Process(LocalProcessError),
    UnsupportedCommand(String),
    UnsupportedOutput { operation: String, detail: String },
    NonZero { operation: String, status: Option<i32>, detail: String },
    Accounts(AccountError),
    Policy(PolicyError),
}

/// `Debug` text of an optional exit status.
pub open spec fn status_debug(status: Option<i32>) -> Seq<char> {
    match status {
        Some(n) => "Some("@ + signed_decimal(n as int) + ")"@,
        None => "None"@,
    }
}

fn status_debug_text(status: Option<i32>) -> (r: Vec<char>)
    ensures
        r@ == status_debug(status),
{
    match status {
        Some(n) => {
            let mut v = chars_of("Some(");
            let digits = format_i64(n as i64);
            append_chars(&mut v, &digits);
            append_str(&mut v, ")");
            v
        },
        None => chars_of("None"),
    }
}

/// How a command's error output is read: what it names decides the kind.
pub open spec fn stderr_kind(detail: Seq<char>) -> LocalFailureKind {
    let n = lower_seq(trim(detail));
    if seq_contains(n, "unknown flag"@) || seq_contains(n, "flag provided but not defined"@)
        || seq_contains(n, "unknown command"@) {
        LocalFailureKind::UnsupportedClient
    } else if seq_contains(n, "permission denied"@) || seq_contains(n, "not permitted"@) {
        LocalFailureKind::PermissionDenied
    } else if seq_contains(n, "not logged in"@) || seq_contains(n, "logged out"@) || seq_contains(
        n,
        "login required"@,
    ) {
        LocalFailureKind::NeedsLogin
    } else if seq_contains(n, "cannot connect"@) || seq_contains(n, "daemon unavailable"@)
        || seq_contains(n, "daemon is not running"@) || seq_contains(n, "failed to connect"@) {
        LocalFailureKind::DaemonUnavailable
    } else {
        LocalFailureKind::Transport
    }
}

pub fn classify_stderr(detail: &str) -> (r: LocalFailureKind)
    ensures
        r == stderr_kind(detail@),
{
    let n = lowercase(&trim_chars(&chars_of(detail)));
    if str_contains(&n, "unknown flag") || str_contains(&n, "flag provided but not defined")
        || str_contains(&n, "unknown command") {
        LocalFailureKind::UnsupportedClient
    } else if str_contains(&n, "permission denied") || str_contains(&n, "not permitted") {
        LocalFailureKind::PermissionDenied
    } else if str_contains(&n, "not logged in") || str_contains(&n, "logged out") || str_contains(
        &n,
        "login required",
    ) {
        LocalFailureKind::NeedsLogin
    } else if str_contains(&n, "cannot connect") || str_contains(&n, "daemon unavailable")
        || str_contains(&n, "daemon is not running") || str_contains(&n, "failed to connect") {
        LocalFailureKind::DaemonUnavailable
    } else {
        LocalFailureKind::Transport
    }
}

/// Failure detail cut to its byte limit.
pub fn bounded_detail(value: &str) -> (r: String)
    ensures
        r@ == prefix_bytes_spec(value@, DETAIL_LIMIT as nat),
{
    bounded_prefix_bytes(value, DETAIL_LIMIT)
}

/// The text that `String::from_utf8_lossy` makes of some bytes: valid UTF-8 is
/// decoded as it is, and anything else has its invalid sequences replaced.
pub uninterp spec fn lossy_text(bytes: Seq<u8>) -> Seq<char>;

/// The bytes as text, with invalid UTF-8 replaced as `String::from_utf8_lossy` does.
#[verifier::external_body]
pub fn utf8_lossy(bytes: &[u8]) -> (r: String)
    ensures
        r@ == lossy_text(bytes@),
        vstd::utf8::valid_utf8(bytes@) ==> r@ == vstd::utf8::decode_utf8(bytes@),
{
    String::from_utf8_lossy(bytes).into_owned()
}

/// Error output of a command, as text cut to the detail limit.
pub fn bounded_output(bytes: &[u8]) -> (r: String)
    ensures
        r@ == prefix_bytes_spec(lossy_text(bytes@), DETAIL_LIMIT as nat),
{
    let text = utf8_lossy(bytes);
    bounded_detail(text.as_str())
}

/// Whether an operation name is `version`.
fn is_version(operation: &String) -> (r: bool)
    ensures
        r == (operation@ == "version"@),
{
    chars_eq_str(&chars_of(operation.as_str()), "version")
}

impl ClientError {
    pub open spec fn message_spec(&self) -> Seq<char> {
        match self {
            ClientError::Process(e) => e.message_spec(),
            ClientError::UnsupportedCommand(c) => "unsupported local command: "@ + c@,
            ClientError::UnsupportedOutput { operation, detail } => "unsupported local output for "@
                + operation@ + ": "@ + detail@,
            ClientError::NonZero { operation, status, detail } => "local command "@ + operation@
                + " exited with status "@ + status_debug(*status) + ": "@ + detail@,
            ClientError::Accounts(e) => e.message_spec(),
            ClientError::Policy(e) => e.message_spec(),
        }
    }

    /// The text that describes the error.
    pub fn message(&self) -> (r: String)
        ensures
            r@ == self.message_spec(),
    {
        match self {
            ClientError::Process(e) => e.message(),
            ClientError::UnsupportedCommand(c) => joined("unsupported local command: ", c.as_str()),
            ClientError::UnsupportedOutput { operation, detail } => {
                let mut v = chars_of("unsupported local output for ");
                append_str(&mut v, operation.as_str());
                append_str(&mut v, ": ");
                append_str(&mut v, detail.as_str());
                string_from_chars(&v)
            },
            ClientError::NonZero { operation, status, detail } => {
                let mut v = chars_of("local command ");
                append_str(&mut v, operation.as_str());
                append_str(&mut v, " exited with status ");
                let s = status_debug_text(*status);
                append_chars(&mut v, &s);
                append_str(&mut v, ": ");
                append_str(&mut v, detail.as_str());
                string_from_chars(&v)
            },
            ClientError::Accounts(e) => e.message(),
            ClientError::Policy(e) => e.message(),
        }
    }

    pub open spec fn operation_spec(&self) -> Seq<char> {
        match self {
            ClientError::Process(_) => "local command"@,
            ClientError::UnsupportedCommand(operation) => operation@,
            ClientError::UnsupportedOutput { operation, .. } => operation@,
            ClientError::NonZero { operation, .. } => operation@,
            ClientError::Accounts(_) => "accounts"@,
            ClientError::Policy(_) => "system policy"@,
        }
    }

    pub fn operation(&self) -> (r: String)
        ensures
            r@ == self.operation_spec(),
    {
        match self {
            ClientError::Process(_) => "local command".to_owned(),
            ClientError::UnsupportedCommand(operation) => operation.clone(),
            ClientError::UnsupportedOutput { operation, .. } => operation.clone(),
            ClientError::NonZero { operation, .. } => operation.clone(),
            ClientError::Accounts(_) => "accounts".to_owned(),
            ClientError::Policy(_) => "system policy".to_owned(),
        }
    }

    /// What the operator is told about the failure.
    pub open spec fn failure_spec(&self) -> LocalFailureView {
        let operation = self.operation_spec();
        match self {
            ClientError::Process(LocalProcessError::NotFound) => LocalFailureView {
                kind: LocalFailureKind::ExecutableMissing,
                operation,
                summary: "tailscale executable missing"@,
                detail: "install or expose tailscale outside Tale, then retry"@,
                retryable: false,
            },
            ClientError::Process(LocalProcessError::PermissionDenied) => LocalFailureView {
                kind: LocalFailureKind::ExecutableDenied,
                operation,
                summary: "tailscale executable permission denied"@,
                detail: "check the executable permissions outside Tale"@,
                retryable: false,
            },
            ClientError::Process(LocalProcessError::TimedOut) => LocalFailureView {
                kind: LocalFailureKind::TimedOut,
                operation,
                summary: "local command timed out"@,
                detail: "the command exceeded the configured timeout"@,
                retryable: true,
            },
            ClientError::Process(LocalProcessError::Cancelled) => LocalFailureView {
                kind: LocalFailureKind::Cancelled,
                operation,
                summary: "local command cancelled"@,
                detail: "the command was cancelled"@,
                retryable: false,
            },
            ClientError::Process(e) => LocalFailureView {
                kind: LocalFailureKind::Transport,
                operation,
                summary: "local command failed"@,
                detail: prefix_bytes_spec(e.message_spec(), DETAIL_LIMIT as nat),
                retryable: true,
            },
            ClientError::UnsupportedCommand(_) => LocalFailureView {
                kind: LocalFailureKind::UnsupportedClient,
                operation,
                summary: "local command unavailable"@,
                detail: "the installed client did not advertise this command"@,
                retryable: false,
            },
            ClientError::UnsupportedOutput { operation: op, detail } => LocalFailureView {
                kind: if op@ == "version"@ {
                    LocalFailureKind::UnsupportedClient
                } else {
                    LocalFailureKind::InvalidOutput
                },
                operation,
                summary: "local output is unsupported"@,
                detail: prefix_bytes_spec(detail@, DETAIL_LIMIT as nat),
                retryable: false,
            },
            ClientError::NonZero { detail, .. } => LocalFailureView {
                kind: stderr_kind(detail@),
                operation,
                summary: "local command returned an error"@,
                detail: match stderr_kind(detail@) {
                    LocalFailureKind::UnsupportedClient =>
                        "the client did not accept the requested command or flag"@,
                    LocalFailureKind::PermissionDenied => "the operating system denied the operation"@,
                    LocalFailureKind::NeedsLogin => "the client requires authentication"@,
                    LocalFailureKind::DaemonUnavailable => "the local daemon could not be reached"@,
                    _ => "the local command returned a non-zero status"@,
                },
                retryable: true,
            },
            ClientError::Accounts(e) => LocalFailureView {
                kind: e.failure_kind_spec(),
                operation,
                summary: "local account data was unavailable"@,
                detail: prefix_bytes_spec(e.message_spec(), DETAIL_LIMIT as nat),
                retryable: e is Command || e is TimedOut,
            },
            ClientError::Policy(e) => LocalFailureView {
                kind: e.failure_kind_spec(),
                operation,
                summary: "system policy data was unavailable"@,
                detail: prefix_bytes_spec(e.message_spec(), DETAIL_LIMIT as nat),
                retryable: e is Command || e is TimedOut,
            },
        }
    }

    pub fn failure(&self) -> (r: LocalFailure)
        ensures
            r@ == self.failure_spec(),
    {
        let operation = self.operation();
        match self {
            ClientError::Process(LocalProcessError::NotFound) => LocalFailure::new(
                LocalFailureKind::ExecutableMissing,
                operation,
                "tailscale executable missing".to_owned(),
                "install or expose tailscale outside Tale, then retry".to_owned(),
                false,
            ),
            ClientError::Process(LocalProcessError::PermissionDenied) => LocalFailure::new(
                LocalFailureKind::ExecutableDenied,
                operation,
                "tailscale executable permission denied".to_owned(),
                "check the executable permissions outside Tale".to_owned(),
                false,
            ),
            ClientError::Process(LocalProcessError::TimedOut) => LocalFailure::new(
                LocalFailureKind::TimedOut,
                operation,
                "local command timed out".to_owned(),
                "the command exceeded the configured timeout".to_owned(),
                true,
            ),
            ClientError::Process(LocalProcessError::Cancelled) => LocalFailure::new(
                LocalFailureKind::Cancelled,
                operation,
                "local command cancelled".to_owned(),
                "the command was cancelled".to_owned(),
                false,
            ),
            ClientError::Process(error) => {
                let m = error.message();
                LocalFailure::new(
                    LocalFailureKind::Transport,
                    operation,
                    "local command failed".to_owned(),
                    bounded_detail(m.as_str()),
                    true,
                )
            },
            ClientError::UnsupportedCommand(_) => LocalFailure::new(
                LocalFailureKind::UnsupportedClient,
                operation,
                "local command unavailable".to_owned(),
                "the installed client did not advertise this command".to_owned(),
                false,
            ),
            ClientError::UnsupportedOutput { operation: op, detail } => {
                let kind = if is_version(op) {
                    LocalFailureKind::UnsupportedClient
                } else {
                    LocalFailureKind::InvalidOutput
                };
                LocalFailure::new(
                    kind,
                    operation,
                    "local output is unsupported".to_owned(),
                    bounded_detail(detail.as_str()),
                    false,
                )
            },
            ClientError::NonZero { detail, .. } => {
                let kind = classify_stderr(detail.as_str());
                let safe_detail = match kind {
                    LocalFailureKind::UnsupportedClient =>
                        "the client did not accept the requested command or flag",
                    LocalFailureKind::PermissionDenied => "the operating system denied the operation",
                    LocalFailureKind::NeedsLogin => "the client requires authentication",
                    LocalFailureKind::DaemonUnavailable => "the local daemon could not be reached",
                    _ => "the local command returned a non-zero status",
                };
                LocalFailure::new(
                    kind,
                    operation,
                    "local command returned an error".to_owned(),
                    safe_detail.to_owned(),
                    true,
                )
            },
            ClientError::Accounts(error) => {
                let m = error.message();
                LocalFailure::new(
                    error.failure_kind(),
                    operation,
                    "local account data was unavailable".to_owned(),
                    bounded_detail(m.as_str()),
                    error.retryable(),
                )
            },
            ClientError::Policy(error) => {
                let m = error.message();
                LocalFailure::new(
                    error.failure_kind(),
                    operation,
                    "system policy data was unavailable".to_owned(),
                    bounded_detail(m.as_str()),
                    error.retryable(),
                )
            },
        }
    }

    /// The state of the local client that the failure implies.
    pub open spec fn state_spec(&self, version: Seq<char>) -> LocalStateView {
        match self {
            ClientError::Process(LocalProcessError::NotFound) => LocalStateView::ExecutableMissing,
            ClientError::Process(LocalProcessError::PermissionDenied) =>
                LocalStateView::ExecutableDenied,
            ClientError::UnsupportedCommand(_) => LocalStateView::UnsupportedClient {
                version,
                reason: self.message_spec(),
            },
            ClientError::UnsupportedOutput { operation, .. } => if operation@ == "version"@ {
                LocalStateView::UnsupportedClient { version, reason: self.message_spec() }
            } else {
                LocalStateView::DaemonUnavailable { detail: self.message_spec() }
            },
            ClientError::NonZero { detail, .. } => match stderr_kind(detail@) {
                LocalFailureKind::PermissionDenied => LocalStateView::PermissionDenied {
                    operation: self.operation_spec(),
                    detail: "the operating system denied the operation"@,
                },
                LocalFailureKind::NeedsLogin => LocalStateView::NeedsLogin { auth_url: None },
                LocalFailureKind::DaemonUnavailable => LocalStateView::DaemonUnavailable {
                    detail: "the local daemon could not be reached"@,
                },
                LocalFailureKind::UnsupportedClient => LocalStateView::UnsupportedClient {
                    version,
                    reason: "the client did not accept the requested command or flag"@,
                },
                LocalFailureKind::Transport => LocalStateView::DaemonUnavailable {
                    detail: "the local command returned a transport error"@,
                },
                _ => LocalStateView::DaemonUnavailable {
                    detail: "the local command returned an error"@,
                },
            },
            ClientError::Process(LocalProcessError::TimedOut) => LocalStateView::DaemonUnavailable {
                detail: "local command timed out"@,
            },
            ClientError::Process(e) => LocalStateView::DaemonUnavailable {
                detail: prefix_bytes_spec(e.message_spec(), DETAIL_LIMIT as nat),
            },
            ClientError::Accounts(_) | ClientError::Policy(_) => LocalStateView::DaemonUnavailable {
                detail: self.message_spec(),
            },
        }
    }

    pub fn state(&self, version: &str) -> (r: LocalState)
        ensures
            r@ == self.state_spec(version@),
    {
        match self {
            ClientError::Process(LocalProcessError::NotFound) => LocalState::ExecutableMissing,
            ClientError::Process(LocalProcessError::PermissionDenied) => LocalState::ExecutableDenied,
            ClientError::UnsupportedCommand(_) => LocalState::UnsupportedClient {
                version: version.to_owned(),
                reason: self.message(),
            },
            ClientError::UnsupportedOutput { operation, .. } => {
                if is_version(operation) {
                    LocalState::UnsupportedClient { version: version.to_owned(), reason: self.message() }
                } else {
                    LocalState::DaemonUnavailable { detail: self.message() }
                }
            },
            ClientError::NonZero { detail, .. } => match classify_stderr(detail.as_str()) {
                LocalFailureKind::PermissionDenied => LocalState::PermissionDenied {
                    operation: self.operation(),
                    detail: "the operating system denied the operation".to_owned(),
                },
                LocalFailureKind::NeedsLogin => LocalState::NeedsLogin { auth_url: None },
                LocalFailureKind::DaemonUnavailable => LocalState::DaemonUnavailable {
                    detail: "the local daemon could not be reached".to_owned(),
                },
                LocalFailureKind::UnsupportedClient => LocalState::UnsupportedClient {
                    version: version.to_owned(),
                    reason: "the client did not accept the requested command or flag".to_owned(),
                },
                LocalFailureKind::Transport => LocalState::DaemonUnavailable {
                    detail: "the local command returned a transport error".to_owned(),
                },
                _ => LocalState::DaemonUnavailable {
                    detail: "the local command returned an error".to_owned(),
                },
            },
            ClientError::Process(LocalProcessError::TimedOut) => LocalState::DaemonUnavailable {
                detail: "local command timed out".to_owned(),
            },
            ClientError::Process(error) => {
                let m = error.message();
                LocalState::DaemonUnavailable { detail: bounded_detail(m.as_str()) }
            },
            ClientError::Accounts(_) | ClientError::Policy(_) => LocalState::DaemonUnavailable {
                detail: self.message(),
            },
        }
    }
}

/// The command-line client for one discovered executable. Time limits are in
/// milliseconds.
#[derive(Debug, Clone, PartialEq, Eq)]
pub struct LocalCliClient {
    pub executable: LocalExecutable,
    pub timeout_ms: u64,
}

impl LocalCliClient {
    pub fn new(executable: LocalExecutable, timeout_ms: u64) -> (r: Self)
        ensures
            r.executable == executable,
            r.timeout_ms == timeout_ms,
    {
        LocalCliClient { executable, timeout_ms }
    }
}


/// The string stored under the first of `names` that holds a string.
pub open spec fn first_string_spec(v: JsonValue, names: Seq<Seq<char>>) -> Option<Seq<char>>
    decreases names.len(),
{
    if names.len() == 0 {
        None
    } else {
        match v.get_spec(names[0]) {
            Some(JsonValue::String(s)) => Some(s@),
            _ => first_string_spec(v, names.drop_first()),
        }
    }
}

fn first_string(v: &JsonValue, names: &[&str]) -> (r: Option<String>)
    ensures
        crate::domain::opt_view(r) == first_string_spec(*v, names@.map_values(|n: &str| n@)),
{
    let ghost all = names@.map_values(|n: &str| n@);
    let mut i: usize = 0;
    proof {
        assert(all.skip(0) =~= all);
    }
    while i < names.len()
        invariant
            i <= names@.len(),
            all == names@.map_values(|n: &str| n@),
            first_string_spec(*v, all) == first_string_spec(*v, all.skip(i as int)),
        decreases names.len() - i,
    {
        proof {
            assert(all.skip(i as int)[0] == names@[i as int]@);
            assert(all.skip(i as int).drop_first() =~= all.skip(i + 1));
        }
        if let Some(JsonValue::String(s)) = v.get(names[i]) {
            return Some(s.clone());
        }
        i = i + 1;
    }
    None
}

/// What `tailscale version --json --daemon` reports. `parsed` is the output
/// read as JSON, or the parser's message.
pub fn decode_version(parsed: &Result<JsonValue, String>) -> (r: Result<VersionInfo, String>)
    ensures
        match parsed {
            Err(m) => r matches Err(e) && e@ == "invalid JSON: "@ + m@,
            Ok(v) => match first_string_spec(*v, seq!["version"@, "short"@, "full"@, "Version"@]) {
                None => r matches Err(e) && e@ == "required CLI version was not returned"@,
                Some(cli) => r matches Ok(info) && info.version@ == cli
                    && crate::domain::opt_view(info.daemon_version) == first_string_spec(*v, seq!["daemonVersion"@, "DaemonVersion"@])
                    && crate::domain::opt_view(info.build) == first_string_spec(*v, seq!["gitCommit"@, "GitCommit"@, "commit"@, "full"@]),
            },
        },
{
    let value = match parsed {
        Err(m) => {
            let mut d = chars_of("invalid JSON: ");
            append_str(&mut d, m.as_str());
            return Err(string_from_chars(&d));
        },
        Ok(v) => v,
    };
    let cli_names = ["version", "short", "full", "Version"];
    let daemon_names = ["daemonVersion", "DaemonVersion"];
    let build_names = ["gitCommit", "GitCommit", "commit", "full"];
    proof {
        assert(cli_names@.map_values(|n: &str| n@) =~= seq!["version"@, "short"@, "full"@, "Version"@]);
        assert(daemon_names@.map_values(|n: &str| n@) =~= seq!["daemonVersion"@, "DaemonVersion"@]);
        assert(build_names@.map_values(|n: &str| n@) =~= seq!["gitCommit"@, "GitCommit"@, "commit"@, "full"@]);
    }
    let version = match first_string(value, &cli_names) {
        Some(v) => v,
        None => {
            return Err("required CLI version was not returned".to_owned());
        },
    };
    let daemon_version = first_string(value, &daemon_names);
    let build = first_string(value, &build_names);
    Ok(VersionInfo { version, daemon_version, build })
}

/// Where to look for the `tailscale` executable. The sources are tried in
/// this order: the command line, the environment, the configuration file,
/// and last the directories of `path` (the `PATH` value, `:`-separated).
/// Paths are taken in their Unix form.
#[derive(Debug, Clone, PartialEq, Eq)]
pub struct ExecutableResolution {
    pub cli_path: Option<String>,
    pub environment_path: Option<String>,
    pub config_path: Option<String>,
    pub socket_path: Option<String>,
    pub path: Option<String>,
    pub platform: HostPlatform,
}

/// What the file system reported of a path that exists.
#[derive(Debug, Clone, Copy, PartialEq, Eq, Structural)]
pub struct FileMetadata {
    pub is_file: bool,
    pub mode: u32,
}

/// A path that was looked up, with its metadata where the lookup succeeded.
#[derive(Debug, Clone, PartialEq, Eq)]
pub struct PathProbe {
    pub path: String,
    pub metadata: Option<FileMetadata>,
}

pub enum ExecutableErrorView {
    NotFound(Seq<Seq<char>>),
    PermissionDenied(Seq<char>),
    InvalidPath,
}

impl View for ExecutableError {
    type V = ExecutableErrorView;

    open spec fn view(&self) -> ExecutableErrorView {
        match self {
            ExecutableError::NotFound { searched } => ExecutableErrorView::NotFound(views(searched@)),
            ExecutableError::PermissionDenied { path } => ExecutableErrorView::PermissionDenied(path@),
            ExecutableError::InvalidPath => ExecutableErrorView::InvalidPath,
        }
    }
}

/// What the first probe of `p` found; a path that nobody looked up counts as
/// one that does not exist.
pub open spec fn probed(probes: Seq<PathProbe>, p: Seq<char>) -> Option<FileMetadata>
    decreases probes.len(),
{
    if probes.len() == 0 {
        None
    } else if probes[0].path@ == p {
        probes[0].metadata
    } else {
        probed(probes.drop_first(), p)
    }
}

/// A regular file, and on Unix one with an execute bit set.
pub open spec fn runnable(m: Option<FileMetadata>, platform: HostPlatform) -> bool {
    match m {
        Some(md) => md.is_file && (platform == HostPlatform::Windows || md.mode & 0o111u32 != 0),
        None => false,
    }
}

pub open spec fn exe_variant(p: Seq<char>) -> Seq<char> {
    with_extension_spec(p, seq!['e', 'x', 'e'])
}

/// The path that stands for `p`: `p` itself where it exists, else on Windows
/// `p` with `.exe` added where its file name has no extension and that exists.
pub open spec fn candidate_spec(probes: Seq<PathProbe>, p: Seq<char>, platform: HostPlatform) -> Option<Seq<char>> {
    if probed(probes, p) is Some {
        Some(p)
    } else if platform == HostPlatform::Windows && extension_is_none(p) && probed(
        probes,
        exe_variant(p),
    ) is Some {
        Some(exe_variant(p))
    } else {
        None
    }
}

pub open spec fn explicit_spec(
    probes: Seq<PathProbe>,
    p: Seq<char>,
    source: ExecutableSource,
    platform: HostPlatform,
) -> Result<(Seq<char>, ExecutableSource), ExecutableErrorView> {
    if p.len() == 0 {
        Err(ExecutableErrorView::InvalidPath)
    } else {
        match candidate_spec(probes, p, platform) {
            None => Err(ExecutableErrorView::NotFound(seq![p])),
            Some(c) => if runnable(probed(probes, c), platform) {
                Ok((c, source))
            } else {
                Err(ExecutableErrorView::PermissionDenied(c))
            },
        }
    }
}

/// `name` in each directory of a `:`-separated list, in order.
pub open spec fn path_targets(name: Seq<char>, value: Seq<char>) -> Seq<Seq<char>> {
    split_on(value, ':').map_values(|d: Seq<char>| join_spec(d, name))
}

/// Walking `targets` in order: the first runnable candidate, and else the
/// last candidate that exists but cannot be run.
pub open spec fn scan(probes: Seq<PathProbe>, targets: Seq<Seq<char>>, platform: HostPlatform) -> (
    Option<Seq<char>>,
    Option<Seq<char>>,
)
    decreases targets.len(),
{
    if targets.len() == 0 {
        (None, None)
    } else {
        let (found, denied) = scan(probes, targets.drop_last(), platform);
        if found is Some {
            (found, denied)
        } else {
            match candidate_spec(probes, targets.last(), platform) {
                Some(c) => if runnable(probed(probes, c), platform) {
                    (Some(c), denied)
                } else {
                    (None, Some(c))
                },
                None => (None, denied),
            }
        }
    }
}

pub open spec fn search_spec(
    probes: Seq<PathProbe>,
    name: Seq<char>,
    value: Option<Seq<char>>,
    platform: HostPlatform,
) -> Result<(Seq<char>, ExecutableSource), ExecutableErrorView> {
    match value {
        None => Err(ExecutableErrorView::NotFound(Seq::empty())),
        Some(v) => {
            let t = path_targets(name, v);
            match scan(probes, t, platform) {
                (Some(c), _) => Ok((c, ExecutableSource::Path)),
                (None, Some(d)) => Err(ExecutableErrorView::PermissionDenied(d)),
                (None, None) => Err(ExecutableErrorView::NotFound(t)),
            }
        },
    }
}

/// A path with a directory part is used as it is; a bare name is looked up
/// in the directories of `PATH`.
pub open spec fn explicit_or_path_spec(
    probes: Seq<PathProbe>,
    p: Seq<char>,
    source: ExecutableSource,
    input: ExecutableResolution,
) -> Result<(Seq<char>, ExecutableSource), ExecutableErrorView> {
    if is_absolute(p) || component_count(p) > 1 {
        explicit_spec(probes, p, source, input.platform)
    } else {
        match search_spec(probes, p, opt_view(input.path), input.platform) {
            Ok((c, _)) => Ok((c, source)),
            Err(e) => Err(e),
        }
    }
}

pub open spec fn default_executable_name() -> Seq<char> {
    seq!['t', 'a', 'i', 'l', 's', 'c', 'a', 'l', 'e']
}

pub open spec fn resolution_spec(input: ExecutableResolution, probes: Seq<PathProbe>) -> Result<
    (Seq<char>, ExecutableSource),
    ExecutableErrorView,
> {
    match input.cli_path {
        Some(p) => explicit_spec(probes, p@, ExecutableSource::Cli, input.platform),
        None => match input.environment_path {
            Some(p) => explicit_or_path_spec(probes, p@, ExecutableSource::Environment, input),
            None => match input.config_path {
                Some(p) => explicit_or_path_spec(probes, p@, ExecutableSource::Config, input),
                None => search_spec(
                    probes,
                    default_executable_name(),
                    opt_view(input.path),
                    input.platform,
                ),
            },
        },
    }
}

/// `r` is the result that `o` describes.
pub open spec fn resolved_as(
    r: Result<ResolvedExecutable, ExecutableError>,
    o: Result<(Seq<char>, ExecutableSource), ExecutableErrorView>,
) -> bool {
    match o {
        Ok((p, s)) => r matches Ok(x) && x.path@ == p && x.source == s,
        Err(e) => r matches Err(x) && x@ == e,
    }
}

fn lookup(probes: &Vec<PathProbe>, p: &str) -> (r: Option<FileMetadata>)
    ensures
        r == probed(probes@, p@),
{
    let pc = chars_of(p);
    let mut i: usize = 0;
    proof {
        assert(probes@.subrange(0, probes@.len() as int) =~= probes@);
    }
    while i < probes.len()
        invariant
            i <= probes@.len(),
            pc@ == p@,
            probed(probes@, p@) == probed(probes@.subrange(i as int, probes@.len() as int), p@),
        decreases probes.len() - i,
    {
        let ghost sub = probes@.subrange(i as int, probes@.len() as int);
        proof {
            assert(sub[0] == probes@[i as int]);
        }
        if chars_eq_str(&pc, probes[i].path.as_str()) {
            return probes[i].metadata;
        }
        proof {
            assert(sub.drop_first() =~= probes@.subrange(i + 1, probes@.len() as int));
        }
        i = i + 1;
    }
    None
}

fn is_executable(m: Option<FileMetadata>, platform: HostPlatform) -> (r: bool)
    ensures
        r == runnable(m, platform),
{
    match m {
        Some(md) => md.is_file && (platform == HostPlatform::Windows || md.mode & 0o111u32 != 0),
        None => false,
    }
}

fn executable_candidate(probes: &Vec<PathProbe>, p: &str, platform: HostPlatform) -> (r: Option<String>)
    ensures
        opt_view(r) == candidate_spec(probes@, p@, platform),
{
    if lookup(probes, p).is_some() {
        return Some(p.to_owned());
    }
    if platform == HostPlatform::Windows && path_extension_is_none(p) {
        proof {
            reveal_strlit("exe");
            assert("exe"@ =~= seq!['e', 'x', 'e']);
        }
        let exe = path_with_extension(p, "exe");
        assert(exe@ == exe_variant(p@));
        if lookup(probes, exe.as_str()).is_some() {
            return Some(exe);
        }
    }
    None
}

/// An explicitly given path: it must name something that exists (on Windows
/// also with `.exe` added) and that can be run.
pub fn resolve_explicit(
    probes: &Vec<PathProbe>,
    path: &str,
    source: ExecutableSource,
    platform: HostPlatform,
) -> (r: Result<ResolvedExecutable, ExecutableError>)
    ensures
        resolved_as(r, explicit_spec(probes@, path@, source, platform)),
        r matches Ok(x) ==> x.socket_path is None,
{
    if path.is_empty() {
        return Err(ExecutableError::InvalidPath);
    }
    match executable_candidate(probes, path, platform) {
        None => {
            let mut searched: Vec<String> = Vec::new();
            searched.push(path.to_owned());
            proof {
                assert(views(searched@) =~= seq![path@]);
            }
            Err(ExecutableError::NotFound { searched })
        },
        Some(c) => {
            if !is_executable(lookup(probes, c.as_str()), platform) {
                return Err(ExecutableError::PermissionDenied { path: c });
            }
            Ok(ResolvedExecutable { path: c, socket_path: None, source })
        },
    }
}

/// The places `name` is looked for: one per directory of `path_value`.
pub fn path_candidates(name: &str, path_value: &str) -> (r: Vec<String>)
    ensures
        views(r@) == path_targets(name@, path_value@),
{
    let v = chars_of(path_value);
    let dirs = split_chars(&v, ':');
    let ghost d = split_on(path_value@, ':');
    let mut out: Vec<String> = Vec::new();
    let mut i: usize = 0;
    while i < dirs.len()
        invariant
            i <= dirs@.len(),
            v@ == path_value@,
            dirs@.len() == d.len(),
            forall|k: int| 0 <= k < dirs@.len() ==> #[trigger] dirs@[k]@ == d[k],
            views(out@) == d.take(i as int).map_values(|x: Seq<char>| join_spec(x, name@)),
        decreases dirs.len() - i,
    {
        let dir = string_from_chars(&dirs[i]);
        let target = join(dir.as_str(), name);
        let ghost before = out@;
        out.push(target);
        proof {
            assert(dir@ == d[i as int]);
            assert(out@ == before.push(target));
            assert(views(out@) =~= views(before).push(target@));
            assert(views(out@) =~= d.take(i + 1).map_values(|x: Seq<char>| join_spec(x, name@)));
        }
        i = i + 1;
    }
    proof {
        assert(d.take(d.len() as int) =~= d);
    }
    out
}

/// `name` looked for in each directory of `path_value` in turn: the first
/// that can be run wins; where none can, the last that exists is reported as
/// not executable, and where none exists, every place looked at is listed.
pub fn search_path(
    probes: &Vec<PathProbe>,
    name: &str,
    path_value: Option<&str>,
    platform: HostPlatform,
) -> (r: Result<ResolvedExecutable, ExecutableError>)
    ensures
        resolved_as(
            r,
            search_spec(
                probes@,
                name@,
                match path_value {
                    Some(v) => Some(v@),
                    None => None,
                },
                platform,
            ),
        ),
        r matches Ok(x) ==> x.socket_path is None,
{
    let value = match path_value {
        None => {
            let searched: Vec<String> = Vec::new();
            proof {
                assert(views(searched@) =~= Seq::<Seq<char>>::empty());
            }
            return Err(ExecutableError::NotFound { searched });
        },
        Some(v) => v,
    };
    let targets = path_candidates(name, value);
    let ghost t = path_targets(name@, value@);
    let mut denied: Option<String> = None;
    let mut i: usize = 0;
    while i < targets.len()
        invariant
            i <= targets@.len(),
            views(targets@) == t,
            path_value == Some(value),
            t == path_targets(name@, value@),
            scan(probes@, t.take(i as int), platform) == (None::<Seq<char>>, opt_view(denied)),
        decreases targets.len() - i,
    {
        proof {
            assert(t.take(i + 1).drop_last() =~= t.take(i as int));
            assert(t.take(i + 1).last() == targets@[i as int]@);
        }
        match executable_candidate(probes, targets[i].as_str(), platform) {
            None => {},
            Some(c) => {
                if is_executable(lookup(probes, c.as_str()), platform) {
                    proof {
                        assert(scan(probes@, t.take(i + 1), platform).0 == Some(c@));
                        lemma_scan_found_stays(probes@, t, i + 1, platform);
                    }
                    return Ok(
                        ResolvedExecutable { path: c, socket_path: None, source: ExecutableSource::Path },
                    );
                }
                denied = Some(c);
            },
        }
        i = i + 1;
    }
    proof {
        assert(t.take(targets@.len() as int) =~= t);
    }
    match denied {
        Some(d) => Err(ExecutableError::PermissionDenied { path: d }),
        None => Err(ExecutableError::NotFound { searched: targets }),
    }
}

/// Once the walk has found a runnable candidate, the rest of the targets do
/// not change what it found.
proof fn lemma_scan_found_stays(
    probes: Seq<PathProbe>,
    t: Seq<Seq<char>>,
    i: int,
    platform: HostPlatform,
)
    requires
        0 <= i <= t.len(),
        scan(probes, t.take(i), platform).0 is Some,
    ensures
        scan(probes, t, platform).0 == scan(probes, t.take(i), platform).0,
    decreases t.len() - i,
{
    if i < t.len() {
        assert(t.take(i + 1).drop_last() =~= t.take(i));
        lemma_scan_found_stays(probes, t, i + 1, platform);
    } else {
        assert(t.take(i) =~= t);
    }
}

/// A path from the environment or the configuration file: used as it is
/// where it has a directory part, else looked for in `PATH`.
pub fn resolve_explicit_or_path(
    probes: &Vec<PathProbe>,
    path: &str,
    source: ExecutableSource,
    input: &ExecutableResolution,
) -> (r: Result<ResolvedExecutable, ExecutableError>)
    ensures
        resolved_as(r, explicit_or_path_spec(probes@, path@, source, *input)),
        r matches Ok(x) ==> x.socket_path is None,
{
    if path_is_absolute(path) || has_several_components(path) {
        return resolve_explicit(probes, path, source, input.platform);
    }
    let value: Option<&str> = match &input.path {
        Some(v) => Some(v.as_str()),
        None => None,
    };
    match search_path(probes, path, value, input.platform) {
        Ok(found) => Ok(ResolvedExecutable { path: found.path, socket_path: None, source }),
        Err(e) => Err(e),
    }
}

/// The `tailscale` executable that `input` leads to, given what the file
/// system reported for the paths that were looked up (see `lookup_paths`).
/// A resolved executable carries the socket path of `input`.
pub fn resolve_executable(input: &ExecutableResolution, probes: &Vec<PathProbe>) -> (r: Result<
    ResolvedExecutable,
    ExecutableError,
>)
    ensures
        resolved_as(r, resolution_spec(*input, probes@)),
        r matches Ok(x) ==> opt_view(x.socket_path) == opt_view(input.socket_path),
{
    let result = match &input.cli_path {
        Some(p) => resolve_explicit(probes, p.as_str(), ExecutableSource::Cli, input.platform),
        None => match &input.environment_path {
            Some(p) => resolve_explicit_or_path(probes, p.as_str(), ExecutableSource::Environment, input),
            None => match &input.config_path {
                Some(p) => resolve_explicit_or_path(probes, p.as_str(), ExecutableSource::Config, input),
                None => {
                    let value: Option<&str> = match &input.path {
                        Some(v) => Some(v.as_str()),
                        None => None,
                    };
                    proof {
                        reveal_strlit("tailscale");
                        assert("tailscale"@ =~= default_executable_name());
                    }
                    search_path(probes, "tailscale", value, input.platform)
                },
            },
        },
    };
    match result {
        Ok(found) => {
            let socket_path = match &input.socket_path {
                Some(s) => Some(s.clone()),
                None => None,
            };
            Ok(ResolvedExecutable { path: found.path, socket_path, source: found.source })
        },
        Err(e) => Err(e),
    }
}

/// The paths looked up for one candidate: the path, and on Windows, where its
/// file name has no extension, the path with `.exe` added.
pub open spec fn probe_list(p: Seq<char>, platform: HostPlatform) -> Seq<Seq<char>> {
    if platform == HostPlatform::Windows && extension_is_none(p) {
        seq![p, exe_variant(p)]
    } else {
        seq![p]
    }
}

pub open spec fn probe_targets(ts: Seq<Seq<char>>, platform: HostPlatform) -> Seq<Seq<char>>
    decreases ts.len(),
{
    if ts.len() == 0 {
        Seq::empty()
    } else {
        probe_targets(ts.drop_last(), platform) + probe_list(ts.last(), platform)
    }
}

pub open spec fn search_lookups(name: Seq<char>, value: Option<Seq<char>>, platform: HostPlatform) -> Seq<
    Seq<char>,
> {
    match value {
        None => Seq::empty(),
        Some(v) => probe_targets(path_targets(name, v), platform),
    }
}

pub open spec fn explicit_or_path_lookups(p: Seq<char>, input: ExecutableResolution) -> Seq<
    Seq<char>,
> {
    if is_absolute(p) || component_count(p) > 1 {
        probe_list(p, input.platform)
    } else {
        search_lookups(p, opt_view(input.path), input.platform)
    }
}

/// Every path whose metadata the resolution of `input` may read.
pub open spec fn lookup_paths_spec(input: ExecutableResolution) -> Seq<Seq<char>> {
    match input.cli_path {
        Some(p) => if p@.len() == 0 {
            Seq::empty()
        } else {
            probe_list(p@, input.platform)
        },
        None => match input.environment_path {
            Some(p) => explicit_or_path_lookups(p@, input),
            None => match input.config_path {
                Some(p) => explicit_or_path_lookups(p@, input),
                None => search_lookups(default_executable_name(), opt_view(input.path), input.platform),
            },
        },
    }
}

fn push_probe_list(out: &mut Vec<String>, p: &str, platform: HostPlatform)
    ensures
        views(final(out)@) == views(old(out)@) + probe_list(p@, platform),
{
    let ghost before = out@;
    out.push(p.to_owned());
    if platform == HostPlatform::Windows && path_extension_is_none(p) {
        proof {
            reveal_strlit("exe");
            assert("exe"@ =~= seq!['e', 'x', 'e']);
        }
        let exe = path_with_extension(p, "exe");
        out.push(exe);
        proof {
            assert(views(out@) =~= views(before) + seq![p@, exe_variant(p@)]);
        }
    } else {
        proof {
            assert(views(out@) =~= views(before) + seq![p@]);
        }
    }
}

fn push_search_lookups(out: &mut Vec<String>, name: &str, value: Option<&str>, platform: HostPlatform)
    ensures
        views(final(out)@) == views(old(out)@) + search_lookups(
            name@,
            match value {
                Some(v) => Some(v@),
                None => None,
            },
            platform,
        ),
{
    match value {
        None => {
            assert(views(out@) =~= views(out@) + Seq::<Seq<char>>::empty());
        },
        Some(v) => {
            let targets = path_candidates(name, v);
            let ghost t = views(targets@);
            let ghost start = views(out@);
            let mut i: usize = 0;
            proof {
                assert(t.take(0) =~= Seq::<Seq<char>>::empty());
                assert(start + probe_targets(t.take(0), platform) =~= start);
            }
            while i < targets.len()
                invariant
                    i <= targets@.len(),
                    t == views(targets@),
                    views(out@) == start + probe_targets(t.take(i as int), platform),
                decreases targets.len() - i,
            {
                push_probe_list(out, targets[i].as_str(), platform);
                proof {
                    assert(t.take(i + 1).drop_last() =~= t.take(i as int));
                    assert(t.take(i + 1).last() == targets@[i as int]@);
                    assert(views(out@) =~= start + probe_targets(t.take(i + 1), platform));
                }
                i = i + 1;
            }
            proof {
                assert(t.take(targets@.len() as int) =~= t);
            }
        },
    }
}

/// The paths whose metadata `resolve_executable` may read for `input`, in the
/// order it may read them; a path missing from the probes handed to it counts
/// as one that does not exist.
pub fn lookup_paths(input: &ExecutableResolution) -> (r: Vec<String>)
    ensures
        views(r@) == lookup_paths_spec(*input),
{
    let mut out: Vec<String> = Vec::new();
    let value: Option<&str> = match &input.path {
        Some(v) => Some(v.as_str()),
        None => None,
    };
    let chosen: Option<&String> = match &input.cli_path {
        Some(p) => {
            if !p.as_str().is_empty() {
                push_probe_list(&mut out, p.as_str(), input.platform);
            }
            proof {
                assert(views(out@) =~= lookup_paths_spec(*input));
            }
            return out;
        },
        None => match &input.environment_path {
            Some(p) => Some(p),
            None => match &input.config_path {
                Some(p) => Some(p),
                None => None,
            },
        },
    };
    match chosen {
        Some(p) => {
            if path_is_absolute(p.as_str()) || has_several_components(p.as_str()) {
                push_probe_list(&mut out, p.as_str(), input.platform);
            } else {
                push_search_lookups(&mut out, p.as_str(), value, input.platform);
            }
        },
        None => {
            proof {
                reveal_strlit("tailscale");
                assert("tailscale"@ =~= default_executable_name());
            }
            push_search_lookups(&mut out, "tailscale", value, input.platform);
        },
    }
    proof {
        assert(views(out@) =~= lookup_paths_spec(*input));
    }
    out
}

proof fn lemma_candidate_agrees(a: Seq<PathProbe>, b: Seq<PathProbe>, p: Seq<char>, platform: HostPlatform)
    requires
        forall|q: Seq<char>| probe_list(p, platform).contains(q) ==> probed(a, q) == probed(b, q),
    ensures
        candidate_spec(a, p, platform) == candidate_spec(b, p, platform),
        candidate_spec(a, p, platform) matches Some(c) ==> probed(a, c) == probed(b, c),
{
    let l = probe_list(p, platform);
    assert(l[0] == p);
    assert(l.contains(p));
    if platform == HostPlatform::Windows && extension_is_none(p) {
        assert(l[1] == exe_variant(p));
        assert(l.contains(exe_variant(p)));
    }
}

proof fn lemma_scan_agrees(a: Seq<PathProbe>, b: Seq<PathProbe>, ts: Seq<Seq<char>>, platform: HostPlatform)
    requires
        forall|q: Seq<char>| probe_targets(ts, platform).contains(q) ==> probed(a, q) == probed(b, q),
    ensures
        scan(a, ts, platform) == scan(b, ts, platform),
    decreases ts.len(),
{
    if ts.len() > 0 {
        let front = probe_targets(ts.drop_last(), platform);
        let back = probe_list(ts.last(), platform);
        assert(probe_targets(ts, platform) == front + back);
        assert forall|q: Seq<char>| front.contains(q) implies probed(a, q) == probed(b, q) by {
            let k = choose|k: int| 0 <= k < front.len() && front[k] == q;
            assert((front + back)[k] == q);
            assert(probe_targets(ts, platform).contains(q));
        }
        assert forall|q: Seq<char>| back.contains(q) implies probed(a, q) == probed(b, q) by {
            let k = choose|k: int| 0 <= k < back.len() && back[k] == q;
            assert((front + back)[front.len() + k] == q);
            assert(probe_targets(ts, platform).contains(q));
        }
        lemma_scan_agrees(a, b, ts.drop_last(), platform);
        lemma_candidate_agrees(a, b, ts.last(), platform);
    }
}

proof fn lemma_search_agrees(
    a: Seq<PathProbe>,
    b: Seq<PathProbe>,
    name: Seq<char>,
    value: Option<Seq<char>>,
    platform: HostPlatform,
)
    requires
        forall|q: Seq<char>| search_lookups(name, value, platform).contains(q) ==> probed(a, q)
            == probed(b, q),
    ensures
        search_spec(a, name, value, platform) == search_spec(b, name, value, platform),
{
    if let Some(v) = value {
        lemma_scan_agrees(a, b, path_targets(name, v), platform);
    }
}

/// Resolution reads the file system only at the paths that `lookup_paths`
/// lists: two sets of probes that report the same for those paths lead to
/// the same result.
pub proof fn resolution_reads_only_lookup_paths(
    input: ExecutableResolution,
    a: Seq<PathProbe>,
    b: Seq<PathProbe>,
)
    requires
        forall|q: Seq<char>| lookup_paths_spec(input).contains(q) ==> probed(a, q) == probed(b, q),
    ensures
        resolution_spec(input, a) == resolution_spec(input, b),
{
    let chosen = match input.cli_path {
        Some(p) => None,
        None => match input.environment_path {
            Some(p) => Some(p@),
            None => match input.config_path {
                Some(p) => Some(p@),
                None => None,
            },
        },
    };
    match input.cli_path {
        Some(p) => {
            if p@.len() > 0 {
                lemma_candidate_agrees(a, b, p@, input.platform);
            }
        },
        None => {
            match chosen {
                Some(p) => {
                    if is_absolute(p) || component_count(p) > 1 {
                        lemma_candidate_agrees(a, b, p, input.platform);
                    } else {
                        lemma_search_agrees(a, b, p, opt_view(input.path), input.platform);
                    }
                },
                None => {
                    lemma_search_agrees(
                        a,
                        b,
                        default_executable_name(),
                        opt_view(input.path),
                        input.platform,
                    );
                },
            }
        },
    }
}

/// Command-line flags override environment variables, which override the
/// configuration file: where the command line names the executable, the
/// environment and configuration play no part, and where the environment
/// names it, the configuration plays none.
pub proof fn command_line_overrides_environment_overrides_config(
    input: ExecutableResolution,
    probes: Seq<PathProbe>,
)
    ensures
        input.cli_path is Some ==> resolution_spec(input, probes) == resolution_spec(
            (ExecutableResolution { environment_path: None, config_path: None, ..input }),
            probes,
        ),
        input.cli_path is None && input.environment_path is Some ==> resolution_spec(input, probes)
            == resolution_spec((ExecutableResolution { config_path: None, ..input }), probes),
{
}

/// Help output is read up to this many bytes on each stream.
pub const HELP_OUTPUT_LIMIT: usize = 65536;

/// `tailscale <topic words> --help`, which succeeds where the client knows
/// the topic.
pub fn help_command(path: &str, timeout_ms: u64, topic: &str, socket_path: Option<&str>) -> (r:
    LocalCommand)
    ensures
        r.executable@ == path@,
        r.operation is Help,
        r.operation->Help_0@ == topic@,
        views(r.args@) == ascii_tokens_of(topic@).push("--help"@),
        r.timeout_ms == Some(timeout_ms),
        r.stdout_limit == HELP_OUTPUT_LIMIT,
        r.stderr_limit == HELP_OUTPUT_LIMIT,
        opt_view(r.socket_path) == match socket_path {
            Some(s) => Some(s@),
            None => None,
        },
        r.stdin == crate::local::process::StdinMode::Closed,
        r.stdout_mode == crate::local::process::OutputMode::Collect,
        r.stderr_mode == crate::local::process::OutputMode::Collect,
        r.redactions@.len() == 0,
{
    let words = split_ascii_whitespace(&chars_of(topic));
    let ghost toks = ascii_tokens_of(topic@);
    let mut args: Vec<String> = Vec::new();
    let mut i: usize = 0;
    while i < words.len()
        invariant
            i <= words@.len(),
            words@.len() == toks.len(),
            forall|k: int| 0 <= k < words@.len() ==> #[trigger] words@[k]@ == toks[k],
            views(args@) == toks.take(i as int),
        decreases words.len() - i,
    {
        let ghost before = args@;
        args.push(string_from_chars(&words[i]));
        proof {
            assert(views(args@) =~= views(before).push(toks[i as int]));
            assert(toks.take(i + 1) =~= toks.take(i as int).push(toks[i as int]));
        }
        i = i + 1;
    }
    let ghost before = args@;
    args.push("--help".to_owned());
    proof {
        assert(toks.take(toks.len() as int) =~= toks);
        assert(views(args@) =~= toks.push("--help"@));
    }
    let command = LocalCommand::new(path.to_owned(), LocalOperation::Help(topic.to_owned()), args)
        .with_timeout(timeout_ms).with_limits(HELP_OUTPUT_LIMIT, HELP_OUTPUT_LIMIT);
    apply_socket_path(command, socket_path)
}

/// A help topic counts as available where its command ran and exited with
/// status zero.
pub fn help_succeeded(result: &Result<crate::local::process::LocalCommandResult, LocalProcessError>) -> (r:
    bool)
    ensures
        r == (result matches Ok(x) && x.exit_status == Some(0i32)),
{
    match result {
        Ok(x) => x.exit_status == Some(0i32),
        Err(_) => false,
    }
}

/// The help topics asked about, grouped by the capability they decide, in
/// the order of the fields of `LocalCapabilities` (`netcheck` decides both
/// netcheck fields). A capability is there where every topic of its group is.
pub open spec fn capability_groups_spec() -> Seq<Seq<Seq<char>>> {
    seq![
        seq!["ping"@],
        seq!["netcheck"@],
        seq!["dns status"@],
        seq!["dns query"@],
        seq!["whois"@],
        seq!["up"@],
        seq!["down"@],
        seq!["set"@],
        seq!["switch"@],
        seq!["login"@],
        seq!["logout"@],
        seq!["switch remove"@],
        seq!["syspolicy"@],
        seq!["ssh"@],
        seq!["nc"@],
        seq!["serve"@, "serve status"@],
        seq!["funnel"@, "funnel status"@],
        seq!["file cp"@, "file get"@],
        seq!["drive list"@, "drive share"@, "drive rename"@, "drive unshare"@],
        seq!["cert"@],
        seq!["metrics"@],
        seq!["bugreport"@],
    ]
}

pub open spec fn group_views(g: Seq<Vec<String>>) -> Seq<Seq<Seq<char>>> {
    g.map_values(|x: Vec<String>| views(x@))
}

fn group_of(words: &[&str]) -> (r: Vec<String>)
    ensures
        views(r@) == words@.map_values(|w: &str| w@),
{
    let r = owned_strings(words);
    proof {
        assert(views(r@) =~= words@.map_values(|w: &str| w@));
    }
    r
}

/// The help topics to ask about, group by group (see `capability_groups_spec`).
pub fn capability_groups() -> (r: Vec<Vec<String>>)
    ensures
        group_views(r@) == capability_groups_spec(),
{
    let mut out: Vec<Vec<String>> = Vec::new();
    out.push(group_of(&["ping"]));
    out.push(group_of(&["netcheck"]));
    out.push(group_of(&["dns status"]));
    out.push(group_of(&["dns query"]));
    out.push(group_of(&["whois"]));
    out.push(group_of(&["up"]));
    out.push(group_of(&["down"]));
    out.push(group_of(&["set"]));
    out.push(group_of(&["switch"]));
    out.push(group_of(&["login"]));
    out.push(group_of(&["logout"]));
    out.push(group_of(&["switch remove"]));
    out.push(group_of(&["syspolicy"]));
    out.push(group_of(&["ssh"]));
    out.push(group_of(&["nc"]));
    out.push(group_of(&["serve", "serve status"]));
    out.push(group_of(&["funnel", "funnel status"]));
    out.push(group_of(&["file cp", "file get"]));
    out.push(group_of(&["drive list", "drive share", "drive rename", "drive unshare"]));
    out.push(group_of(&["cert"]));
    out.push(group_of(&["metrics"]));
    out.push(group_of(&["bugreport"]));
    proof {
        let g = group_views(out@);
        assert(g.len() == 22);
        assert forall|i: int| 0 <= i < 22 implies #[trigger] g[i] =~= capability_groups_spec()[i] by {}
        assert(g =~= capability_groups_spec());
    }
    out
}

/// Whether group `i` was found available; a group without an answer was not.
pub open spec fn group_ok(groups: Seq<bool>, i: int) -> bool {
    0 <= i < groups.len() && groups[i]
}

fn group_ok_exec(groups: &Vec<bool>, i: usize) -> (r: bool)
    ensures
        r == group_ok(groups@, i as int),
{
    i < groups.len() && groups[i]
}

/// The capabilities that the answers for the groups of `capability_groups`
/// show, field by field in the order of the groups.
pub fn capabilities_from(groups: &Vec<bool>) -> (r: LocalCapabilities)
    ensures
        r.ping == group_ok(groups@, 0),
        r.netcheck_json == group_ok(groups@, 1),
        r.netcheck_json_line == group_ok(groups@, 1),
        r.dns_status_json == group_ok(groups@, 2),
        r.dns_query_json == group_ok(groups@, 3),
        r.whois_json == group_ok(groups@, 4),
        r.connect == group_ok(groups@, 5),
        r.disconnect == group_ok(groups@, 6),
        r.set == group_ok(groups@, 7),
        r.accounts == group_ok(groups@, 8),
        r.account_login == group_ok(groups@, 9),
        r.account_logout == group_ok(groups@, 10),
        r.account_remove == group_ok(groups@, 11),
        r.syspolicy == group_ok(groups@, 12),
        r.ssh == group_ok(groups@, 13),
        r.nc == group_ok(groups@, 14),
        r.serve == group_ok(groups@, 15),
        r.funnel == group_ok(groups@, 16),
        r.taildrop == group_ok(groups@, 17),
        r.drive == group_ok(groups@, 18),
        r.certificate == group_ok(groups@, 19),
        r.metrics == group_ok(groups@, 20),
        r.bugreport == group_ok(groups@, 21),
{
    let netcheck = group_ok_exec(groups, 1);
    LocalCapabilities {
        ping: group_ok_exec(groups, 0),
        netcheck_json: netcheck,
        netcheck_json_line: netcheck,
        dns_status_json: group_ok_exec(groups, 2),
        dns_query_json: group_ok_exec(groups, 3),
        whois_json: group_ok_exec(groups, 4),
        connect: group_ok_exec(groups, 5),
        disconnect: group_ok_exec(groups, 6),
        set: group_ok_exec(groups, 7),
        accounts: group_ok_exec(groups, 8),
        account_login: group_ok_exec(groups, 9),
        account_logout: group_ok_exec(groups, 10),
        account_remove: group_ok_exec(groups, 11),
        syspolicy: group_ok_exec(groups, 12),
        ssh: group_ok_exec(groups, 13),
        nc: group_ok_exec(groups, 14),
        serve: group_ok_exec(groups, 15),
        funnel: group_ok_exec(groups, 16),
        taildrop: group_ok_exec(groups, 17),
        drive: group_ok_exec(groups, 18),
        certificate: group_ok_exec(groups, 19),
        metrics: group_ok_exec(groups, 20),
        bugreport: group_ok_exec(groups, 21),
    }
}

/// What a finished run comes to: the run itself where it exited with status
/// zero; otherwise the process failure, or the non-zero status with the
/// command's error output cut to the detail limit.
pub fn command_outcome(result: Result<crate::local::process::LocalCommandResult, LocalProcessError>) -> (r:
    Result<crate::local::process::LocalCommandResult, ClientError>)
    ensures
        match result {
            Err(e) => r == Err::<crate::local::process::LocalCommandResult, ClientError>(ClientError::Process(e)),
            Ok(x) => if x.exit_status == Some(0i32) {
                r == Ok::<crate::local::process::LocalCommandResult, ClientError>(x)
            } else {
                r matches Err(ClientError::NonZero { operation, status, detail })
                    && operation@ == x.operation.label_spec() && status == x.exit_status
                    && detail@ == prefix_bytes_spec(lossy_text(x.stderr@), DETAIL_LIMIT as nat)
            },
        },
{
    match result {
        Err(e) => Err(ClientError::Process(e)),
        Ok(x) => {
            if x.exit_status == Some(0i32) {
                Ok(x)
            } else {
                let operation = x.operation.label();
                let detail = bounded_output(x.stderr.as_slice());
                Err(ClientError::NonZero { operation, status: x.exit_status, detail })
            }
        },
    }
}

/// The version report of a successful `version` run: `parsed` is its output
/// read as JSON, or the parser's message. A report without a version is
/// unsupported output of `operation`.
pub fn version_from_output(operation: &LocalOperation, parsed: &Result<JsonValue, String>) -> (r: Result<
    VersionInfo,
    ClientError,
>)
    ensures
        match parsed {
            Err(m) => r matches Err(ClientError::UnsupportedOutput { operation: o, detail })
                && o@ == operation.label_spec() && detail@ == "invalid JSON: "@ + m@,
            Ok(v) => match first_string_spec(*v, seq!["version"@, "short"@, "full"@, "Version"@]) {
                None => r matches Err(ClientError::UnsupportedOutput { operation: o, detail })
                    && o@ == operation.label_spec() && detail@ == "required CLI version was not returned"@,
                Some(cli) => r matches Ok(info) && info.version@ == cli && opt_view(info.daemon_version)
                    == first_string_spec(*v, seq!["daemonVersion"@, "DaemonVersion"@])
                    && opt_view(info.build) == first_string_spec(
                    *v,
                    seq!["gitCommit"@, "GitCommit"@, "commit"@, "full"@],
                ),
            },
        },
{
    match decode_version(parsed) {
        Ok(info) => Ok(info),
        Err(detail) => Err(ClientError::UnsupportedOutput { operation: operation.label(), detail }),
    }
}

/// A preference request that cannot become a command, as the client reports
/// it: unsupported output of `preferences`.
pub fn preference_refusal(error: PreferenceCommandError) -> (r: ClientError)
    ensures
        r matches ClientError::UnsupportedOutput { operation, detail } && operation@ == "preferences"@
            && detail@ == error.message_spec(),
{
    ClientError::UnsupportedOutput { operation: "preferences".to_owned(), detail: error.message() }
}

/// What a command's error output names decides how its failure is read, in
/// any ASCII case and whatever white space surrounds it: flags or commands
/// the client does not know mean an unsupported client; otherwise a refused
/// permission means permission denied; otherwise `not logged in`,
/// `logged out` or `login required` mean a login is needed; otherwise words
/// of an unreachable daemon mean the daemon is unavailable; anything else is a
/// transport failure.
pub proof fn error_output_decides_failure_kind(detail: Seq<char>)
    ensures
        ({
            let n = lower_seq(trim(detail));
            let unsupported = seq_contains(n, "unknown flag"@) || seq_contains(n, "flag provided but not defined"@)
                || seq_contains(n, "unknown command"@);
            let permission = seq_contains(n, "permission denied"@) || seq_contains(n, "not permitted"@);
            let login = seq_contains(n, "not logged in"@) || seq_contains(n, "logged out"@)
                || seq_contains(n, "login required"@);
            let daemon = seq_contains(n, "cannot connect"@) || seq_contains(n, "daemon unavailable"@)
                || seq_contains(n, "daemon is not running"@) || seq_contains(n, "failed to connect"@);
            &&& unsupported ==> stderr_kind(detail) == LocalFailureKind::UnsupportedClient
            &&& !unsupported && permission ==> stderr_kind(detail) == LocalFailureKind::PermissionDenied
            &&& !unsupported && !permission && login ==> stderr_kind(detail) == LocalFailureKind::NeedsLogin
            &&& !unsupported && !permission && !login && daemon ==> stderr_kind(detail)
                == LocalFailureKind::DaemonUnavailable
            &&& !unsupported && !permission && !login && !daemon ==> stderr_kind(detail) == LocalFailureKind::Transport
        }),
{
}

/// A command that exited non-zero saying the user is not logged in (and
/// naming no unknown flag or refused permission) leaves the client needing a
/// login, with no login address known.
pub proof fn login_errors_mean_needs_login(operation: String, status: Option<i32>, detail: String, version: Seq<char>)
    requires
        ({
            let n = lower_seq(trim(detail@));
            &&& seq_contains(n, "not logged in"@) || seq_contains(n, "logged out"@) || seq_contains(n, "login required"@)
            &&& !(seq_contains(n, "unknown flag"@) || seq_contains(n, "flag provided but not defined"@)
                || seq_contains(n, "unknown command"@))
            &&& !(seq_contains(n, "permission denied"@) || seq_contains(n, "not permitted"@))
        }),
    ensures
        (ClientError::NonZero { operation, status, detail }).state_spec(version) == (LocalStateView::NeedsLogin {
            auth_url: None,
        }),
{
    error_output_decides_failure_kind(detail@);
}

} // verus!

//! Commands run through the `tailscale` executable, and what their output streams hold.
use vstd::prelude::*;

use std::sync::atomic::AtomicBool;
use std::sync::Arc;

use vstd::utf8::{decode_utf8 as utf8_text, valid_utf8};

use crate::text::{append_chars, append_str, chars_of, owned_strings, string_from_chars};

verus! {

/// Output kept from one stream is never more than this many bytes.
pub const MAX_CAPTURE_BYTES: usize = 4194304;

#[derive(Debug, Clone, PartialEq, Eq)]
pub enum LocalOperation {
    Version,
    Help(String),
    Up,
    Down,
    SetPrefs,
    SwitchList,
    Switch,
    SwitchRemove,
    Login,
    Logout,
    Ssh,
    Nc,
    SyspolicyList,
    SyspolicyReload,
    Ping,
    Netcheck,
    DnsStatus,
    DnsQuery,
    Whois,
    ServeStatus,
    Serve,
    ServeOff,
    ServeReset,
    FunnelStatus,
    Funnel,
    FunnelReset,
    TaildropTargets,
    TaildropSend,
    TaildropReceive,
    TaildriveList,
    TaildriveShare,
    TaildriveRename,
    TaildriveUnshare,
    Certificate,
    Metrics,
    BugReport,
}

impl LocalOperation {
    /// The words of the command line that the operation runs.
    pub open spec fn label_spec(&self) -> Seq<char> {
        match self {
            LocalOperation::Version => "version"@,
            LocalOperation::Help(command) => command@ + " help"@,
            LocalOperation::Up => "up"@,
            LocalOperation::Down => "down"@,
            LocalOperation::SetPrefs => "set"@,
            LocalOperation::SwitchList => "switch --list"@,
            LocalOperation::Switch => "switch"@,
            LocalOperation::SwitchRemove => "switch remove"@,
            LocalOperation::Login => "login"@,
            LocalOperation::Logout => "logout"@,
            LocalOperation::Ssh => "ssh"@,
            LocalOperation::Nc => "nc"@,
            LocalOperation::SyspolicyList => "syspolicy list"@,
            LocalOperation::SyspolicyReload => "syspolicy reload"@,
            LocalOperation::Ping => "ping"@,
            LocalOperation::Netcheck => "netcheck"@,
            LocalOperation::DnsStatus => "dns status"@,
            LocalOperation::DnsQuery => "dns query"@,
            LocalOperation::Whois => "whois"@,
            LocalOperation::ServeStatus => "serve status"@,
            LocalOperation::Serve => "serve"@,
            LocalOperation::ServeOff => "serve off"@,
            LocalOperation::ServeReset => "serve reset"@,
            LocalOperation::FunnelStatus => "funnel status"@,
            LocalOperation::Funnel => "funnel"@,
            LocalOperation::FunnelReset => "funnel reset"@,
            LocalOperation::TaildropTargets => "file cp --targets"@,
            LocalOperation::TaildropSend => "file cp"@,
            LocalOperation::TaildropReceive => "file get"@,
            LocalOperation::TaildriveList => "drive list"@,
            LocalOperation::TaildriveShare => "drive share"@,
            LocalOperation::TaildriveRename => "drive rename"@,
            LocalOperation::TaildriveUnshare => "drive unshare"@,
            LocalOperation::Certificate => "cert"@,
            LocalOperation::Metrics => "metrics print"@,
            LocalOperation::BugReport => "bugreport"@,
        }
    }

    pub fn label(&self) -> (r: String)
        ensures
            r@ == self.label_spec(),
    {
        match self {
            LocalOperation::Version => "version".to_owned(),
            LocalOperation::Help(command) => {
                let mut v = chars_of(command.as_str());
                append_str(&mut v, " help");
                string_from_chars(&v)
            },
            LocalOperation::Up => "up".to_owned(),
            LocalOperation::Down => "down".to_owned(),
            LocalOperation::SetPrefs => "set".to_owned(),
            LocalOperation::SwitchList => "switch --list".to_owned(),
            LocalOperation::Switch => "switch".to_owned(),
            LocalOperation::SwitchRemove => "switch remove".to_owned(),
            LocalOperation::Login => "login".to_owned(),
            LocalOperation::Logout => "logout".to_owned(),
            LocalOperation::Ssh => "ssh".to_owned(),
            LocalOperation::Nc => "nc".to_owned(),
            LocalOperation::SyspolicyList => "syspolicy list".to_owned(),
            LocalOperation::SyspolicyReload => "syspolicy reload".to_owned(),
            LocalOperation::Ping => "ping".to_owned(),
            LocalOperation::Netcheck => "netcheck".to_owned(),
            LocalOperation::DnsStatus => "dns status".to_owned(),
            LocalOperation::DnsQuery => "dns query".to_owned(),
            LocalOperation::Whois => "whois".to_owned(),
            LocalOperation::ServeStatus => "serve status".to_owned(),
            LocalOperation::Serve => "serve".to_owned(),
            LocalOperation::ServeOff => "serve off".to_owned(),
            LocalOperation::ServeReset => "serve reset".to_owned(),
            LocalOperation::FunnelStatus => "funnel status".to_owned(),
            LocalOperation::Funnel => "funnel".to_owned(),
            LocalOperation::FunnelReset => "funnel reset".to_owned(),
            LocalOperation::TaildropTargets => "file cp --targets".to_owned(),
            LocalOperation::TaildropSend => "file cp".to_owned(),
            LocalOperation::TaildropReceive => "file get".to_owned(),
            LocalOperation::TaildriveList => "drive list".to_owned(),
            LocalOperation::TaildriveShare => "drive share".to_owned(),
            LocalOperation::TaildriveRename => "drive rename".to_owned(),
            LocalOperation::TaildriveUnshare => "drive unshare".to_owned(),
            LocalOperation::Certificate => "cert".to_owned(),
            LocalOperation::Metrics => "metrics print".to_owned(),
            LocalOperation::BugReport => "bugreport".to_owned(),
        }
    }
}

#[derive(Debug, Clone, Copy, PartialEq, Eq, Structural)]
pub enum StdinMode {
    Closed,
}

#[derive(Debug, Clone, Copy, PartialEq, Eq, Structural)]
pub enum OutputMode {
    Collect,
    Lines,
}

/// A `tailscale` invocation: the executable, its arguments, and how its output
/// is captured. Time limits are in milliseconds.
#[derive(Debug, Clone, PartialEq, Eq)]
pub struct LocalCommand {
    pub executable: String,
    pub operation: LocalOperation,
    pub args: Vec<String>,
    pub socket_path: Option<String>,
    pub stdin: StdinMode,
    pub stdout_mode: OutputMode,
    pub stderr_mode: OutputMode,
    pub timeout_ms: Option<u64>,
    pub stdout_limit: usize,
    pub stderr_limit: usize,
    pub redactions: Vec<usize>,
}

impl LocalCommand {
    pub fn new(executable: String, operation: LocalOperation, args: Vec<String>) -> (r: Self)
        ensures
            r.executable == executable,
            r.operation == operation,
            r.args == args,
            r.socket_path.is_none(),
            r.stdin == StdinMode::Closed,
            r.stdout_mode == OutputMode::Collect,
            r.stderr_mode == OutputMode::Collect,
            r.timeout_ms == Some(10000u64),
            r.stdout_limit == 4194304,
            r.stderr_limit == 262144,
            r.redactions@.len() == 0,
    {
        LocalCommand {
            executable,
            operation,
            args,
            socket_path: None,
            stdin: StdinMode::Closed,
            stdout_mode: OutputMode::Collect,
            stderr_mode: OutputMode::Collect,
            timeout_ms: Some(10000),
            stdout_limit: 4194304,
            stderr_limit: 262144,
            redactions: Vec::new(),
        }
    }

    pub fn with_timeout(self, timeout_ms: u64) -> (r: Self)
        ensures
            r == (LocalCommand { timeout_ms: Some(timeout_ms), ..self }),
    {
        LocalCommand { timeout_ms: Some(timeout_ms), ..self }
    }

    pub fn without_timeout(self) -> (r: Self)
        ensures
            r == (LocalCommand { timeout_ms: None, ..self }),
    {
        LocalCommand { timeout_ms: None, ..self }
    }

    pub fn with_modes(self, stdout_mode: OutputMode, stderr_mode: OutputMode) -> (r: Self)
        ensures
            r == (LocalCommand { stdout_mode, stderr_mode, ..self }),
    {
        LocalCommand { stdout_mode, stderr_mode, ..self }
    }

    pub fn with_limits(self, stdout_limit: usize, stderr_limit: usize) -> (r: Self)
        ensures
            r == (LocalCommand { stdout_limit, stderr_limit, ..self }),
    {
        LocalCommand { stdout_limit, stderr_limit, ..self }
    }

    pub fn redact_arg(self, index: usize) -> (r: Self)
        ensures
            r.redactions@ == self.redactions@.push(index),
            r == (LocalCommand { redactions: r.redactions, ..self }),
    {
        let mut redactions = self.redactions;
        redactions.push(index);
        LocalCommand { redactions, ..self }
    }

    pub fn with_socket_path(self, path: String) -> (r: Self)
        ensures
            r == (LocalCommand { socket_path: Some(path), ..self }),
    {
        LocalCommand { socket_path: Some(path), ..self }
    }
}


/// The arguments are exactly the given words.
pub open spec fn args_are(args: Seq<String>, words: Seq<Seq<char>>) -> bool {
    args.len() == words.len() && forall|k: int| 0 <= k < words.len() ==> #[trigger] args[k]@ == words[k]
}

pub proof fn lemma_args_are_views(args: Seq<String>, words: Seq<Seq<char>>)
    requires
        args.map_values(|a: String| a@) == words,
    ensures
        args_are(args, words),
{
    assert forall|k: int| 0 <= k < words.len() implies #[trigger] args[k]@ == words[k] by {
        assert(args.map_values(|a: String| a@)[k] == args[k]@);
    }
}

/// A command as `LocalCommand::new` makes it from these parts.
pub open spec fn is_new_command(
    c: LocalCommand,
    executable: Seq<char>,
    operation: LocalOperation,
    words: Seq<Seq<char>>,
) -> bool {
    &&& c.executable@ == executable
    &&& c.operation == operation
    &&& args_are(c.args@, words)
    &&& c.socket_path.is_none()
    &&& c.stdin == StdinMode::Closed
    &&& c.stdout_mode == OutputMode::Collect
    &&& c.stderr_mode == OutputMode::Collect
    &&& c.stdout_limit == 4194304
    &&& c.stderr_limit == 262144
    &&& c.redactions@.len() == 0
}

/// A command for `executable` with `words` as arguments and the given time
/// limit, output modes and capture limits, and nothing else set.
pub open spec fn is_command(
    c: LocalCommand,
    executable: Seq<char>,
    operation: LocalOperation,
    words: Seq<Seq<char>>,
    timeout_ms: Option<u64>,
    stdout_mode: OutputMode,
    stderr_mode: OutputMode,
    stdout_limit: usize,
    stderr_limit: usize,
) -> bool {
    &&& c.executable@ == executable
    &&& c.operation == operation
    &&& args_are(c.args@, words)
    &&& c.socket_path.is_none()
    &&& c.stdin == StdinMode::Closed
    &&& c.stdout_mode == stdout_mode
    &&& c.stderr_mode == stderr_mode
    &&& c.timeout_ms == timeout_ms
    &&& c.stdout_limit == stdout_limit
    &&& c.stderr_limit == stderr_limit
    &&& c.redactions@.len() == 0
}

/// A command for `path` with the given words as arguments.
pub fn command_with_words(
    path: &str,
    operation: LocalOperation,
    words: &[&str],
    timeout_ms: Option<u64>,
) -> (r: LocalCommand)
    ensures
        is_new_command(r, path@, operation, words@.map_values(|w: &str| w@)),
        r.timeout_ms == timeout_ms,
{
    let args = owned_strings(words);
    let c = LocalCommand::new(path.to_owned(), operation, args);
    let r = match timeout_ms {
        Some(t) => c.with_timeout(t),
        None => c.without_timeout(),
    };
    r
}

/// A flag that a running command polls; once raised it stays raised.
#[derive(Clone, Default)]
pub struct Cancellation {
    cancelled: Arc<AtomicBool>,
}

impl Cancellation {
    /// A new flag, not raised. The flag is an atomic shared by every clone,
    /// whose value the verifier does not see, so no clause states it.
    pub fn new() -> Self {
        Cancellation { cancelled: Arc::new(AtomicBool::new(false)) }
    }

    pub fn cancel(&self) {
        self.cancelled.store(true, std::sync::atomic::Ordering::Release);
    }

    /// Whether some holder of the flag has raised it. Other threads may raise it
    /// at any time, so nothing is promised about the answer.
    pub fn is_cancelled(&self) -> bool {
        self.cancelled.load(std::sync::atomic::Ordering::Acquire)
    }
}

#[derive(Debug, Clone, PartialEq, Eq)]
pub enum LocalProcessError {
    NotFound,
    PermissionDenied,
    Spawn(String),
    TimedOut,
    Cancelled,
    Io(String),
    OutputNotUtf8(String),
}

impl LocalProcessError {
    pub open spec fn message_spec(&self) -> Seq<char> {
        match self {
            LocalProcessError::NotFound => "executable not found"@,
            LocalProcessError::PermissionDenied => "permission denied while starting executable"@,
            LocalProcessError::Spawn(d) => "could not start local command: "@ + d@,
            LocalProcessError::TimedOut => "local command timed out"@,
            LocalProcessError::Cancelled => "local command cancelled"@,
            LocalProcessError::Io(d) => "local command I/O failed: "@ + d@,
            LocalProcessError::OutputNotUtf8(d) => "local command output was not UTF-8: "@ + d@,
        }
    }

    /// The text that describes the error.
    pub fn message(&self) -> (r: String)
        ensures
            r@ == self.message_spec(),
    {
        match self {
            LocalProcessError::NotFound => "executable not found".to_owned(),
            LocalProcessError::PermissionDenied => "permission denied while starting executable".to_owned(),
            LocalProcessError::Spawn(d) => {
                let mut v = chars_of("could not start local command: ");
                append_str(&mut v, d.as_str());
                string_from_chars(&v)
            },
            LocalProcessError::TimedOut => "local command timed out".to_owned(),
            LocalProcessError::Cancelled => "local command cancelled".to_owned(),
            LocalProcessError::Io(d) => {
                let mut v = chars_of("local command I/O failed: ");
                append_str(&mut v, d.as_str());
                string_from_chars(&v)
            },
            LocalProcessError::OutputNotUtf8(d) => {
                let mut v = chars_of("local command output was not UTF-8: ");
                append_str(&mut v, d.as_str());
                string_from_chars(&v)
            },
        }
    }
}

/// The kind of an operating-system error, as far as the local client cares.
#[derive(Debug, Clone, Copy, PartialEq, Eq, Structural)]
pub enum IoErrorKind {
    NotFound,
    PermissionDenied,
    InvalidInput,
    Other,
}

/// The error for a command that could not be started.
pub fn classify_spawn_error(kind: IoErrorKind, message: String) -> (r: LocalProcessError)
    ensures
        r == (match kind {
            IoErrorKind::NotFound => LocalProcessError::NotFound,
            IoErrorKind::PermissionDenied => LocalProcessError::PermissionDenied,
            _ => LocalProcessError::Spawn(message),
        }),
{
    match kind {
        IoErrorKind::NotFound => LocalProcessError::NotFound,
        IoErrorKind::PermissionDenied => LocalProcessError::PermissionDenied,
        _ => LocalProcessError::Spawn(message),
    }
}

/// A finished command. Instants are milliseconds on a monotonic clock.
#[derive(Debug, Clone, PartialEq, Eq)]
pub struct LocalCommandResult {
    pub operation: LocalOperation,
    pub exit_status: Option<i32>,
    pub stdout: Vec<u8>,
    pub stderr: Vec<u8>,
    pub started_at: u64,
    pub finished_at: u64,
    pub truncated_stdout: bool,
    pub truncated_stderr: bool,
}

#[derive(Debug, Clone, Copy, PartialEq, Eq, Structural)]
pub enum OutputStream {
    Stdout,
    Stderr,
}

impl OutputStream {
    pub open spec fn label_spec(self) -> Seq<char> {
        match self {
            OutputStream::Stdout => "stdout"@,
            OutputStream::Stderr => "stderr"@,
        }
    }
}

/// The name of an output stream as details show it.
pub fn stream_label(stream: OutputStream) -> (r: &'static str)
    ensures
        r@ == stream.label_spec(),
{
    match stream {
        OutputStream::Stdout => "stdout",
        OutputStream::Stderr => "stderr",
    }
}

#[derive(Debug, Clone, PartialEq, Eq)]
pub struct ProcessLine {
    pub stream: OutputStream,
    pub bytes: Vec<u8>,
}

#[derive(Debug, Clone, PartialEq, Eq)]
pub struct ProcessLinesResult {
    pub result: LocalCommandResult,
    pub invalid_utf8: bool,
}

/// `bytes` as UTF-8 text, or the length of its longest valid prefix.
#[verifier::external_body]
fn utf8_or_valid_prefix(bytes: &[u8]) -> (r: Result<&str, usize>)
    ensures
        match r {
            Ok(text) => valid_utf8(bytes@) && text@ == utf8_text(bytes@),
            Err(k) => {
                &&& !valid_utf8(bytes@)
                &&& k <= bytes@.len()
                &&& valid_utf8(bytes@.take(k as int))
                &&& forall|j: int| k < j <= bytes@.len() ==> !valid_utf8(#[trigger] bytes@.take(j))
            },
        },
{
    std::str::from_utf8(bytes).map_err(|error| error.valid_up_to())
}

/// Whether `bytes` is UTF-8 text.
pub fn is_utf8(bytes: &[u8]) -> (r: bool)
    ensures
        r == valid_utf8(bytes@),
{
    utf8_or_valid_prefix(bytes).is_ok()
}

pub open spec fn hex_digit(n: nat) -> char {
    if n < 10 {
        ((n + 48) as u32) as char
    } else {
        ((n + 87) as u32) as char
    }
}

/// Lower-case hexadecimal, two digits per byte.
pub open spec fn hex_bytes(b: Seq<u8>) -> Seq<char>
    decreases b.len(),
{
    if b.len() == 0 {
        Seq::<char>::empty()
    } else {
        hex_bytes(b.drop_last()) + seq![hex_digit((b.last() / 16) as nat), hex_digit((b.last() % 16) as nat)]
    }
}

fn hex_char(n: u8) -> (r: char)
    requires
        n < 16,
    ensures
        r == hex_digit(n as nat),
{
    if n < 10 {
        (n + 48) as char
    } else {
        (n + 87) as char
    }
}

/// The context that a UTF-8 failure reports: the sixteen bytes from where valid
/// text ends, in hexadecimal, or nothing when fewer than sixteen remain.
pub open spec fn utf8_error_context(bytes: Seq<u8>, start: int) -> Seq<char> {
    if start + 16 <= bytes.len() {
        hex_bytes(bytes.subrange(start, start + 16))
    } else {
        Seq::<char>::empty()
    }
}

pub fn decode_utf8(bytes: &[u8]) -> (r: Result<&str, LocalProcessError>)
    ensures
        match r {
            Ok(text) => valid_utf8(bytes@) && text@ == utf8_text(bytes@),
            Err(LocalProcessError::OutputNotUtf8(context)) => !valid_utf8(bytes@) && exists|k: int|
                0 <= k <= bytes@.len() && valid_utf8(bytes@.take(k)) && (forall|j: int|
                    k < j <= bytes@.len() ==> !valid_utf8(#[trigger] bytes@.take(j)))
                    && context@ == utf8_error_context(bytes@, k),
            Err(_) => false,
        },
{
    match utf8_or_valid_prefix(bytes) {
        Ok(text) => Ok(text),
        Err(start) => {
            let mut out: Vec<char> = Vec::new();
            if start <= bytes.len() && bytes.len() - start >= 16 {
                let end = start + 16;
                let mut i: usize = start;
                while i < end
                    invariant
                        end == start + 16,
                        start + 16 <= bytes@.len(),
                        start <= i <= start + 16,
                        out@ == hex_bytes(bytes@.subrange(start as int, i as int)),
                    decreases end - i,
                {
                    let b = bytes[i];
                    proof {
                        assert(bytes@.subrange(start as int, i + 1).drop_last() =~= bytes@.subrange(
                            start as int,
                            i as int,
                        ));
                    }
                    out.push(hex_char(b / 16));
                    out.push(hex_char(b % 16));
                    i = i + 1;
                }
            }
            proof {
                if !(start + 16 <= bytes@.len()) {
                    assert(out@ =~= Seq::<char>::empty());
                }
                assert(out@ == utf8_error_context(bytes@, start as int));
            }
            let context = string_from_chars(&out);
            proof {
                assert(valid_utf8(bytes@.take(start as int)));
            }
            Err(LocalProcessError::OutputNotUtf8(context))
        },
    }
}

/// A copy of a byte vector.
pub fn copy_bytes(v: &Vec<u8>) -> (r: Vec<u8>)
    ensures
        r@ == v@,
{
    let r = v.clone();
    proof {
        assert(r@ =~= v@);
    }
    r
}

pub open spec fn min_nat(a: nat, b: nat) -> nat {
    if a < b {
        a
    } else {
        b
    }
}

/// Output collected from one stream, cut off at a limit.
#[derive(Debug, Clone, PartialEq, Eq)]
pub struct Capture {
    pub bytes: Vec<u8>,
    pub truncated: bool,
    pub invalid_utf8: bool,
    pub limit: usize,
}

impl Capture {
    pub open spec fn wf(&self) -> bool {
        self.bytes@.len() <= self.limit && self.limit <= MAX_CAPTURE_BYTES
    }

    pub fn new(limit: usize) -> (r: Self)
        ensures
            r.wf(),
            r.bytes@.len() == 0,
            !r.truncated,
            !r.invalid_utf8,
            r.limit == min_nat(limit as nat, MAX_CAPTURE_BYTES as nat),
    {
        let limit = if limit < MAX_CAPTURE_BYTES { limit } else { MAX_CAPTURE_BYTES };
        Capture { bytes: Vec::new(), truncated: false, invalid_utf8: false, limit }
    }

    /// Keeps as much of one read as still fits, and notes when some did not.
    pub fn push_chunk(&mut self, chunk: &[u8])
        requires
            old(self).wf(),
        ensures
            final(self).wf(),
            final(self).limit == old(self).limit,
            final(self).invalid_utf8 == old(self).invalid_utf8,
            old(self).bytes@.len() < old(self).limit ==> {
                let kept = min_nat(chunk@.len(), (old(self).limit - old(self).bytes@.len()) as nat);
                &&& final(self).bytes@ == old(self).bytes@ + chunk@.take(kept as int)
                &&& final(self).truncated == (old(self).truncated || kept < chunk@.len())
            },
            old(self).bytes@.len() >= old(self).limit ==> final(self).bytes@ == old(self).bytes@
                && final(self).truncated,
    {
        if self.bytes.len() < self.limit {
            let remaining = self.limit - self.bytes.len();
            let retained = if chunk.len() < remaining { chunk.len() } else { remaining };
            let mut i: usize = 0;
            let ghost start = self.bytes@;
            while i < retained
                invariant
                    retained <= chunk@.len(),
                    i <= retained,
                    self.bytes@ == start + chunk@.take(i as int),
                    self.limit == old(self).limit,
                    self.truncated == old(self).truncated,
                    self.invalid_utf8 == old(self).invalid_utf8,
                decreases retained - i,
            {
                self.bytes.push(chunk[i]);
                proof {
                    assert(self.bytes@ =~= start + chunk@.take(i + 1));
                }
                i = i + 1;
            }
            if retained < chunk.len() {
                self.truncated = true;
            }
        } else {
            self.truncated = true;
        }
    }

    /// Notes whether everything kept is UTF-8 text.
    pub fn finish(&mut self)
        requires
            old(self).wf(),
        ensures
            final(self).wf(),
            final(self).bytes == old(self).bytes,
            final(self).limit == old(self).limit,
            final(self).truncated == old(self).truncated,
            final(self).invalid_utf8 == !valid_utf8(old(self).bytes@),
    {
        self.invalid_utf8 = !is_utf8(self.bytes.as_slice());
    }
}

/// Output of one stream taken a line at a time: everything kept so far, the
/// line being assembled, and whether anything was dropped or was not UTF-8.
#[derive(Debug, Clone, PartialEq, Eq)]
pub struct LineCapture {
    pub bytes: Vec<u8>,
    pub line: Vec<u8>,
    pub truncated: bool,
    pub invalid_utf8: bool,
    pub limit: usize,
}

impl LineCapture {
    pub open spec fn wf(&self) -> bool {
        self.bytes@.len() <= self.limit && self.line@.len() <= self.limit && self.limit
            <= MAX_CAPTURE_BYTES
    }

    pub fn new(limit: usize) -> (r: Self)
        ensures
            r.wf(),
            r.bytes@.len() == 0,
            r.line@.len() == 0,
            !r.truncated,
            !r.invalid_utf8,
            r.limit == min_nat(limit as nat, MAX_CAPTURE_BYTES as nat),
    {
        let limit = if limit < MAX_CAPTURE_BYTES { limit } else { MAX_CAPTURE_BYTES };
        LineCapture { bytes: Vec::new(), line: Vec::new(), truncated: false, invalid_utf8: false, limit }
    }

    /// Takes one byte. When it ends a line, returns that line for delivery;
    /// the line stays pending until `line_delivered` is called.
    pub fn push_byte(&mut self, byte: u8) -> (r: Option<Vec<u8>>)
        requires
            old(self).wf(),
        ensures
            final(self).wf(),
            final(self).limit == old(self).limit,
            final(self).bytes@ == (if old(self).bytes@.len() < old(self).limit {
                old(self).bytes@.push(byte)
            } else {
                old(self).bytes@
            }),
            final(self).line@ == (if old(self).line@.len() < old(self).limit {
                old(self).line@.push(byte)
            } else {
                old(self).line@
            }),
            final(self).truncated == (old(self).truncated || old(self).bytes@.len()
                >= old(self).limit || old(self).line@.len() >= old(self).limit),
            byte == 10 ==> r is Some && r->0@ == final(self).line@ && final(self).invalid_utf8 == (old(
                self,
            ).invalid_utf8 || !valid_utf8(final(self).line@)),
            byte != 10 ==> r.is_none() && final(self).invalid_utf8 == old(self).invalid_utf8,
    {
        if self.bytes.len() < self.limit {
            self.bytes.push(byte);
        } else {
            self.truncated = true;
        }
        if self.line.len() < self.limit {
            self.line.push(byte);
        } else {
            self.truncated = true;
        }
        if byte == 10 {
            if !is_utf8(self.line.as_slice()) {
                self.invalid_utf8 = true;
            }
            Some(copy_bytes(&self.line))
        } else {
            None
        }
    }

    /// The line handed out by `push_byte` was delivered; start the next one.
    pub fn line_delivered(&mut self)
        requires
            old(self).wf(),
        ensures
            final(self).wf(),
            final(self).line@.len() == 0,
            final(self).bytes == old(self).bytes,
            final(self).limit == old(self).limit,
            final(self).truncated == old(self).truncated,
            final(self).invalid_utf8 == old(self).invalid_utf8,
    {
        self.line = Vec::new();
    }

    /// The unterminated last line, if there is one.
    pub fn pending_line(&self) -> (r: Option<Vec<u8>>)
        ensures
            self.line@.len() > 0 ==> r is Some && r->0@ == self.line@,
            self.line@.len() == 0 ==> r.is_none(),
    {
        if self.line.len() > 0 {
            Some(copy_bytes(&self.line))
        } else {
            None
        }
    }

    /// The last line could not be delivered.
    pub fn delivery_failed(&mut self)
        requires
            old(self).wf(),
        ensures
            *final(self) == (LineCapture { truncated: true, ..*old(self) }),
    {
        self.truncated = true;
    }

    /// Notes whether everything kept is UTF-8 text.
    pub fn finish(&mut self)
        requires
            old(self).wf(),
        ensures
            final(self).wf(),
            *final(self) == (LineCapture {
                invalid_utf8: old(self).invalid_utf8 || !valid_utf8(old(self).bytes@),
                ..*old(self)
            }),
    {
        if !is_utf8(self.bytes.as_slice()) {
            self.invalid_utf8 = true;
        }
    }
}

/// The operation whose label is one of the fixed labels `s`.
pub open spec fn fixed_operation(s: Seq<char>) -> Option<LocalOperation> {
    if s == "version"@ {
        Some(LocalOperation::Version)
    } else if s == "up"@ {
        Some(LocalOperation::Up)
    } else if s == "down"@ {
        Some(LocalOperation::Down)
    } else if s == "set"@ {
        Some(LocalOperation::SetPrefs)
    } else if s == "switch --list"@ {
        Some(LocalOperation::SwitchList)
    } else if s == "switch"@ {
        Some(LocalOperation::Switch)
    } else if s == "switch remove"@ {
        Some(LocalOperation::SwitchRemove)
    } else if s == "login"@ {
        Some(LocalOperation::Login)
    } else if s == "logout"@ {
        Some(LocalOperation::Logout)
    } else if s == "ssh"@ {
        Some(LocalOperation::Ssh)
    } else if s == "nc"@ {
        Some(LocalOperation::Nc)
    } else if s == "syspolicy list"@ {
        Some(LocalOperation::SyspolicyList)
    } else if s == "syspolicy reload"@ {
        Some(LocalOperation::SyspolicyReload)
    } else if s == "ping"@ {
        Some(LocalOperation::Ping)
    } else if s == "netcheck"@ {
        Some(LocalOperation::Netcheck)
    } else if s == "dns status"@ {
        Some(LocalOperation::DnsStatus)
    } else if s == "dns query"@ {
        Some(LocalOperation::DnsQuery)
    } else if s == "whois"@ {
        Some(LocalOperation::Whois)
    } else if s == "serve status"@ {
        Some(LocalOperation::ServeStatus)
    } else if s == "serve"@ {
        Some(LocalOperation::Serve)
    } else if s == "serve off"@ {
        Some(LocalOperation::ServeOff)
    } else if s == "serve reset"@ {
        Some(LocalOperation::ServeReset)
    } else if s == "funnel status"@ {
        Some(LocalOperation::FunnelStatus)
    } else if s == "funnel"@ {
        Some(LocalOperation::Funnel)
    } else if s == "funnel reset"@ {
        Some(LocalOperation::FunnelReset)
    } else if s == "file cp --targets"@ {
        Some(LocalOperation::TaildropTargets)
    } else if s == "file cp"@ {
        Some(LocalOperation::TaildropSend)
    } else if s == "file get"@ {
        Some(LocalOperation::TaildropReceive)
    } else if s == "drive list"@ {
        Some(LocalOperation::TaildriveList)
    } else if s == "drive share"@ {
        Some(LocalOperation::TaildriveShare)
    } else if s == "drive rename"@ {
        Some(LocalOperation::TaildriveRename)
    } else if s == "drive unshare"@ {
        Some(LocalOperation::TaildriveUnshare)
    } else if s == "cert"@ {
        Some(LocalOperation::Certificate)
    } else if s == "metrics print"@ {
        Some(LocalOperation::Metrics)
    } else if s == "bugreport"@ {
        Some(LocalOperation::BugReport)
    } else {
        None
    }
}

/// Operations run different command lines: two operations with one label are
/// the same operation, or both ask for the help of the same command.
#[verifier::rlimit(50)]
pub proof fn operation_labels_are_distinct(a: LocalOperation, b: LocalOperation)
    ensures
        a.label_spec() == b.label_spec() ==> (a == b || (a matches LocalOperation::Help(x) && b matches LocalOperation::Help(y) && x@ == y@)),
{
    reveal_strlit("version");
    assert("version"@ =~= seq!['v', 'e', 'r', 's', 'i', 'o', 'n']);
    reveal_strlit("up");
    assert("up"@ =~= seq!['u', 'p']);
    reveal_strlit("down");
    assert("down"@ =~= seq!['d', 'o', 'w', 'n']);
    reveal_strlit("set");
    assert("set"@ =~= seq!['s', 'e', 't']);
    reveal_strlit("switch --list");
    assert("switch --list"@ =~= seq!['s', 'w', 'i', 't', 'c', 'h', ' ', '-', '-', 'l', 'i', 's', 't']);
    reveal_strlit("switch");
    assert("switch"@ =~= seq!['s', 'w', 'i', 't', 'c', 'h']);
    reveal_strlit("switch remove");
    assert("switch remove"@ =~= seq!['s', 'w', 'i', 't', 'c', 'h', ' ', 'r', 'e', 'm', 'o', 'v', 'e']);
    reveal_strlit("login");
    assert("login"@ =~= seq!['l', 'o', 'g', 'i', 'n']);
    reveal_strlit("logout");
    assert("logout"@ =~= seq!['l', 'o', 'g', 'o', 'u', 't']);
    reveal_strlit("ssh");
    assert("ssh"@ =~= seq!['s', 's', 'h']);
    reveal_strlit("nc");
    assert("nc"@ =~= seq!['n', 'c']);
    reveal_strlit("syspolicy list");
    assert("syspolicy list"@ =~= seq!['s', 'y', 's', 'p', 'o', 'l', 'i', 'c', 'y', ' ', 'l', 'i', 's', 't']);
    reveal_strlit("syspolicy reload");
    assert("syspolicy reload"@ =~= seq!['s', 'y', 's', 'p', 'o', 'l', 'i', 'c', 'y', ' ', 'r', 'e', 'l', 'o', 'a', 'd']);
    reveal_strlit("ping");
    assert("ping"@ =~= seq!['p', 'i', 'n', 'g']);
    reveal_strlit("netcheck");
    assert("netcheck"@ =~= seq!['n', 'e', 't', 'c', 'h', 'e', 'c', 'k']);
    reveal_strlit("dns status");
    assert("dns status"@ =~= seq!['d', 'n', 's', ' ', 's', 't', 'a', 't', 'u', 's']);
    reveal_strlit("dns query");
    assert("dns query"@ =~= seq!['d', 'n', 's', ' ', 'q', 'u', 'e', 'r', 'y']);
    reveal_strlit("whois");
    assert("whois"@ =~= seq!['w', 'h', 'o', 'i', 's']);
    reveal_strlit("serve status");
    assert("serve status"@ =~= seq!['s', 'e', 'r', 'v', 'e', ' ', 's', 't', 'a', 't', 'u', 's']);
    reveal_strlit("serve");
    assert("serve"@ =~= seq!['s', 'e', 'r', 'v', 'e']);
    reveal_strlit("serve off");
    assert("serve off"@ =~= seq!['s', 'e', 'r', 'v', 'e', ' ', 'o', 'f', 'f']);
    reveal_strlit("serve reset");
    assert("serve reset"@ =~= seq!['s', 'e', 'r', 'v', 'e', ' ', 'r', 'e', 's', 'e', 't']);
    reveal_strlit("funnel status");
    assert("funnel status"@ =~= seq!['f', 'u', 'n', 'n', 'e', 'l', ' ', 's', 't', 'a', 't', 'u', 's']);
    reveal_strlit("funnel");
    assert("funnel"@ =~= seq!['f', 'u', 'n', 'n', 'e', 'l']);
    reveal_strlit("funnel reset");
    assert("funnel reset"@ =~= seq!['f', 'u', 'n', 'n', 'e', 'l', ' ', 'r', 'e', 's', 'e', 't']);
    reveal_strlit("file cp --targets");
    assert("file cp --targets"@ =~= seq!['f', 'i', 'l', 'e', ' ', 'c', 'p', ' ', '-', '-', 't', 'a', 'r', 'g', 'e', 't', 's']);
    reveal_strlit("file cp");
    assert("file cp"@ =~= seq!['f', 'i', 'l', 'e', ' ', 'c', 'p']);
    reveal_strlit("file get");
    assert("file get"@ =~= seq!['f', 'i', 'l', 'e', ' ', 'g', 'e', 't']);
    reveal_strlit("drive list");
    assert("drive list"@ =~= seq!['d', 'r', 'i', 'v', 'e', ' ', 'l', 'i', 's', 't']);
    reveal_strlit("drive share");
    assert("drive share"@ =~= seq!['d', 'r', 'i', 'v', 'e', ' ', 's', 'h', 'a', 'r', 'e']);
    reveal_strlit("drive rename");
    assert("drive rename"@ =~= seq!['d', 'r', 'i', 'v', 'e', ' ', 'r', 'e', 'n', 'a', 'm', 'e']);
    reveal_strlit("drive unshare");
    assert("drive unshare"@ =~= seq!['d', 'r', 'i', 'v', 'e', ' ', 'u', 'n', 's', 'h', 'a', 'r', 'e']);
    reveal_strlit("cert");
    assert("cert"@ =~= seq!['c', 'e', 'r', 't']);
    reveal_strlit("metrics print");
    assert("metrics print"@ =~= seq!['m', 'e', 't', 'r', 'i', 'c', 's', ' ', 'p', 'r', 'i', 'n', 't']);
    reveal_strlit("bugreport");
    assert("bugreport"@ =~= seq!['b', 'u', 'g', 'r', 'e', 'p', 'o', 'r', 't']);
    reveal_strlit(" help");
    assert(" help"@ =~= seq![' ', 'h', 'e', 'l', 'p']);
    match a {
        LocalOperation::Help(x) => {
            match b {
                LocalOperation::Help(y) => {
                    if a.label_spec() == b.label_spec() {
                        assert(x@ =~= a.label_spec().take(a.label_spec().len() - 5));
                        assert(y@ =~= b.label_spec().take(b.label_spec().len() - 5));
                    }
                },
                _ => {
                    lemma_fixed_label(b);
                },
            }
        },
        _ => {
            lemma_fixed_label(a);
            match b {
                LocalOperation::Help(y) => {},
                _ => {
                    lemma_fixed_label(b);
                },
            }
        },
    }
}

/// A fixed label reads back as its operation and does not end in ` help`.
#[verifier::rlimit(50)]
proof fn lemma_fixed_label(a: LocalOperation)
    requires
        !(a is Help),
    ensures
        fixed_operation(a.label_spec()) == Some(a),
        a.label_spec().len() < 5 || a.label_spec().skip(a.label_spec().len() - 5) != " help"@,
{
    reveal_strlit("version");
    assert("version"@ =~= seq!['v', 'e', 'r', 's', 'i', 'o', 'n']);
    reveal_strlit("up");
    assert("up"@ =~= seq!['u', 'p']);
    reveal_strlit("down");
    assert("down"@ =~= seq!['d', 'o', 'w', 'n']);
    reveal_strlit("set");
    assert("set"@ =~= seq!['s', 'e', 't']);
    reveal_strlit("switch --list");
    assert("switch --list"@ =~= seq!['s', 'w', 'i', 't', 'c', 'h', ' ', '-', '-', 'l', 'i', 's', 't']);
    reveal_strlit("switch");
    assert("switch"@ =~= seq!['s', 'w', 'i', 't', 'c', 'h']);
    reveal_strlit("switch remove");
    assert("switch remove"@ =~= seq!['s', 'w', 'i', 't', 'c', 'h', ' ', 'r', 'e', 'm', 'o', 'v', 'e']);
    reveal_strlit("login");
    assert("login"@ =~= seq!['l', 'o', 'g', 'i', 'n']);
    reveal_strlit("logout");
    assert("logout"@ =~= seq!['l', 'o', 'g', 'o', 'u', 't']);
    reveal_strlit("ssh");
    assert("ssh"@ =~= seq!['s', 's', 'h']);
    reveal_strlit("nc");
    assert("nc"@ =~= seq!['n', 'c']);
    reveal_strlit("syspolicy list");
    assert("syspolicy list"@ =~= seq!['s', 'y', 's', 'p', 'o', 'l', 'i', 'c', 'y', ' ', 'l', 'i', 's', 't']);
    reveal_strlit("syspolicy reload");
    assert("syspolicy reload"@ =~= seq!['s', 'y', 's', 'p', 'o', 'l', 'i', 'c', 'y', ' ', 'r', 'e', 'l', 'o', 'a', 'd']);
    reveal_strlit("ping");
    assert("ping"@ =~= seq!['p', 'i', 'n', 'g']);
    reveal_strlit("netcheck");
    assert("netcheck"@ =~= seq!['n', 'e', 't', 'c', 'h', 'e', 'c', 'k']);
    reveal_strlit("dns status");
    assert("dns status"@ =~= seq!['d', 'n', 's', ' ', 's', 't', 'a', 't', 'u', 's']);
    reveal_strlit("dns query");
    assert("dns query"@ =~= seq!['d', 'n', 's', ' ', 'q', 'u', 'e', 'r', 'y']);
    reveal_strlit("whois");
    assert("whois"@ =~= seq!['w', 'h', 'o', 'i', 's']);
    reveal_strlit("serve status");
    assert("serve status"@ =~= seq!['s', 'e', 'r', 'v', 'e', ' ', 's', 't', 'a', 't', 'u', 's']);
    reveal_strlit("serve");
    assert("serve"@ =~= seq!['s', 'e', 'r', 'v', 'e']);
    reveal_strlit("serve off");
    assert("serve off"@ =~= seq!['s', 'e', 'r', 'v', 'e', ' ', 'o', 'f', 'f']);
    reveal_strlit("serve reset");
    assert("serve reset"@ =~= seq!['s', 'e', 'r', 'v', 'e', ' ', 'r', 'e', 's', 'e', 't']);
    reveal_strlit("funnel status");
    assert("funnel status"@ =~= seq!['f', 'u', 'n', 'n', 'e', 'l', ' ', 's', 't', 'a', 't', 'u', 's']);
    reveal_strlit("funnel");
    assert("funnel"@ =~= seq!['f', 'u', 'n', 'n', 'e', 'l']);
    reveal_strlit("funnel reset");
    assert("funnel reset"@ =~= seq!['f', 'u', 'n', 'n', 'e', 'l', ' ', 'r', 'e', 's', 'e', 't']);
    reveal_strlit("file cp --targets");
    assert("file cp --targets"@ =~= seq!['f', 'i', 'l', 'e', ' ', 'c', 'p', ' ', '-', '-', 't', 'a', 'r', 'g', 'e', 't', 's']);
    reveal_strlit("file cp");
    assert("file cp"@ =~= seq!['f', 'i', 'l', 'e', ' ', 'c', 'p']);
    reveal_strlit("file get");
    assert("file get"@ =~= seq!['f', 'i', 'l', 'e', ' ', 'g', 'e', 't']);
    reveal_strlit("drive list");
    assert("drive list"@ =~= seq!['d', 'r', 'i', 'v', 'e', ' ', 'l', 'i', 's', 't']);
    reveal_strlit("drive share");
    assert("drive share"@ =~= seq!['d', 'r', 'i', 'v', 'e', ' ', 's', 'h', 'a', 'r', 'e']);
    reveal_strlit("drive rename");
    assert("drive rename"@ =~= seq!['d', 'r', 'i', 'v', 'e', ' ', 'r', 'e', 'n', 'a', 'm', 'e']);
    reveal_strlit("drive unshare");
    assert("drive unshare"@ =~= seq!['d', 'r', 'i', 'v', 'e', ' ', 'u', 'n', 's', 'h', 'a', 'r', 'e']);
    reveal_strlit("cert");
    assert("cert"@ =~= seq!['c', 'e', 'r', 't']);
    reveal_strlit("metrics print");
    assert("metrics print"@ =~= seq!['m', 'e', 't', 'r', 'i', 'c', 's', ' ', 'p', 'r', 'i', 'n', 't']);
    reveal_strlit("bugreport");
    assert("bugreport"@ =~= seq!['b', 'u', 'g', 'r', 'e', 'p', 'o', 'r', 't']);
    reveal_strlit(" help");
    assert(" help"@ =~= seq![' ', 'h', 'e', 'l', 'p']);
    let l = a.label_spec();
    if l.len() >= 5 {
        assert(l.skip(l.len() - 5)[4] == l[l.len() - 1]);
        assert(" help"@[4] == 'p');
    }
    match a {
        LocalOperation::Version => {},
        LocalOperation::Up => {},
        LocalOperation::Down => {},
        LocalOperation::SetPrefs => {},
        LocalOperation::SwitchList => {},
        LocalOperation::Switch => {},
        LocalOperation::SwitchRemove => {},
        LocalOperation::Login => {},
        LocalOperation::Logout => {},
        LocalOperation::Ssh => {},
        LocalOperation::Nc => {},
        LocalOperation::SyspolicyList => {},
        LocalOperation::SyspolicyReload => {},
        LocalOperation::Ping => {},
        LocalOperation::Netcheck => {},
        LocalOperation::DnsStatus => {},
        LocalOperation::DnsQuery => {},
        LocalOperation::Whois => {},
        LocalOperation::ServeStatus => {},
        LocalOperation::Serve => {},
        LocalOperation::ServeOff => {},
        LocalOperation::ServeReset => {},
        LocalOperation::FunnelStatus => {},
        LocalOperation::Funnel => {},
        LocalOperation::FunnelReset => {},
        LocalOperation::TaildropTargets => {},
        LocalOperation::TaildropSend => {},
        LocalOperation::TaildropReceive => {},
        LocalOperation::TaildriveList => {},
        LocalOperation::TaildriveShare => {},
        LocalOperation::TaildriveRename => {},
        LocalOperation::TaildriveUnshare => {},
        LocalOperation::Certificate => {},
        LocalOperation::Metrics => {},
        LocalOperation::BugReport => {},
        LocalOperation::Help(_) => {},
    }
}

} // verus!

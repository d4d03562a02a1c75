//! Commands that hand the terminal to an interactive `tailscale` child:
//! `login`, `logout`, `ssh` and `nc`, and the checks on what they are given.
use vstd::prelude::*;

use crate::local::process::{args_are, LocalOperation};
use crate::numbers::{decimal, format_u64, parse_unsigned, parse_unsigned_spec};
use crate::text::{
    any_whitespace, append_chars, append_str, chars_of, has_char, has_ws, owned_strings,
    string_from_chars,
};

verus! {

/// An interactive command; the executable and socket are taken as given.
#[derive(Debug, Clone, PartialEq, Eq)]
pub enum HandoffCommand {
    Login { executable: String, socket_path: Option<String> },
    Logout { executable: String, socket_path: Option<String> },
    Ssh { executable: String, socket_path: Option<String>, username: Option<String>, host: String },
    Nc { executable: String, socket_path: Option<String>, host: String, port: u16 },
}

pub ghost enum HandoffCommandView {
    Login { executable: Seq<char>, socket_path: Option<Seq<char>> },
    Logout { executable: Seq<char>, socket_path: Option<Seq<char>> },
    Ssh {
        executable: Seq<char>,
        socket_path: Option<Seq<char>>,
        username: Option<Seq<char>>,
        host: Seq<char>,
    },
    Nc { executable: Seq<char>, socket_path: Option<Seq<char>>, host: Seq<char>, port: u16 },
}

impl View for HandoffCommand {
    type V = HandoffCommandView;

    open spec fn view(&self) -> HandoffCommandView {
        match self {
            HandoffCommand::Login { executable, socket_path } => HandoffCommandView::Login {
                executable: executable@,
                socket_path: crate::domain::opt_view(*socket_path),
            },
            HandoffCommand::Logout { executable, socket_path } => HandoffCommandView::Logout {
                executable: executable@,
                socket_path: crate::domain::opt_view(*socket_path),
            },
            HandoffCommand::Ssh { executable, socket_path, username, host } => HandoffCommandView::Ssh {
                executable: executable@,
                socket_path: crate::domain::opt_view(*socket_path),
                username: crate::domain::opt_view(*username),
                host: host@,
            },
            HandoffCommand::Nc { executable, socket_path, host, port } => HandoffCommandView::Nc {
                executable: executable@,
                socket_path: crate::domain::opt_view(*socket_path),
                host: host@,
                port: *port,
            },
        }
    }
}

impl HandoffCommandView {
    pub open spec fn socket_path(self) -> Option<Seq<char>> {
        match self {
            HandoffCommandView::Login { socket_path, .. } => socket_path,
            HandoffCommandView::Logout { socket_path, .. } => socket_path,
            HandoffCommandView::Ssh { socket_path, .. } => socket_path,
            HandoffCommandView::Nc { socket_path, .. } => socket_path,
        }
    }

    pub open spec fn executable(self) -> Seq<char> {
        match self {
            HandoffCommandView::Login { executable, .. } => executable,
            HandoffCommandView::Logout { executable, .. } => executable,
            HandoffCommandView::Ssh { executable, .. } => executable,
            HandoffCommandView::Nc { executable, .. } => executable,
        }
    }

    /// The same command with another socket.
    pub open spec fn with_socket(self, socket_path: Option<Seq<char>>) -> HandoffCommandView {
        match self {
            HandoffCommandView::Login { executable, .. } => HandoffCommandView::Login { executable, socket_path },
            HandoffCommandView::Logout { executable, .. } => HandoffCommandView::Logout { executable, socket_path },
            HandoffCommandView::Ssh { executable, username, host, .. } => HandoffCommandView::Ssh {
                executable,
                socket_path,
                username,
                host,
            },
            HandoffCommandView::Nc { executable, host, port, .. } => HandoffCommandView::Nc {
                executable,
                socket_path,
                host,
                port,
            },
        }
    }

    /// The words after the socket option.
    pub open spec fn command_words(self) -> Seq<Seq<char>> {
        match self {
            HandoffCommandView::Login { .. } => seq!["login"@],
            HandoffCommandView::Logout { .. } => seq!["logout"@],
            HandoffCommandView::Ssh { username, host, .. } => seq![
                "ssh"@,
                match username {
                    Some(u) => u + "@"@ + host,
                    None => host,
                },
            ],
            HandoffCommandView::Nc { host, port, .. } => seq!["nc"@, host, decimal(port as nat)],
        }
    }

    /// The whole argument list: `--socket <path>` first where a socket is set.
    pub open spec fn args(self) -> Seq<Seq<char>> {
        match self.socket_path() {
            Some(p) => seq!["--socket"@, p] + self.command_words(),
            None => self.command_words(),
        }
    }
}

impl HandoffCommand {
    pub open spec fn operation_spec(&self) -> LocalOperation {
        match self {
            HandoffCommand::Login { .. } => LocalOperation::Login,
            HandoffCommand::Logout { .. } => LocalOperation::Logout,
            HandoffCommand::Ssh { .. } => LocalOperation::Ssh,
            HandoffCommand::Nc { .. } => LocalOperation::Nc,
        }
    }

    pub fn operation(&self) -> (r: LocalOperation)
        ensures
            r == self.operation_spec(),
    {
        match self {
            HandoffCommand::Login { .. } => LocalOperation::Login,
            HandoffCommand::Logout { .. } => LocalOperation::Logout,
            HandoffCommand::Ssh { .. } => LocalOperation::Ssh,
            HandoffCommand::Nc { .. } => LocalOperation::Nc,
        }
    }

    pub fn executable(&self) -> (r: &String)
        ensures
            r@ == self@.executable(),
    {
        match self {
            HandoffCommand::Login { executable, .. } => executable,
            HandoffCommand::Logout { executable, .. } => executable,
            HandoffCommand::Ssh { executable, .. } => executable,
            HandoffCommand::Nc { executable, .. } => executable,
        }
    }

    /// The argument list, each item one argument: no shell ever reads it.
    pub fn args(&self) -> (r: Vec<String>)
        ensures
            args_are(r@, self@.args()),
    {
        let (socket_path, mut args) = match self {
            HandoffCommand::Login { socket_path, .. } => (socket_path, owned_strings(&["login"])),
            HandoffCommand::Logout { socket_path, .. } => (socket_path, owned_strings(&["logout"])),
            HandoffCommand::Ssh { socket_path, username, host, .. } => {
                let target = match username {
                    Some(u) => {
                        let mut t = chars_of(u.as_str());
                        append_str(&mut t, "@");
                        append_str(&mut t, host.as_str());
                        string_from_chars(&t)
                    },
                    None => host.clone(),
                };
                let mut v = owned_strings(&["ssh"]);
                v.push(target);
                (socket_path, v)
            },
            HandoffCommand::Nc { socket_path, host, port, .. } => {
                let mut v = owned_strings(&["nc"]);
                v.push(host.clone());
                v.push(string_from_chars(&format_u64(*port as u64)));
                (socket_path, v)
            },
        };
        proof {
            assert(args_are(args@, self@.command_words()));
        }
        match socket_path {
            Some(p) => {
                let mut out = owned_strings(&["--socket"]);
                out.push(p.clone());
                let mut i: usize = 0;
                while i < args.len()
                    invariant
                        i <= args.len(),
                        out@.len() == 2 + i,
                        out@[0]@ == "--socket"@,
                        out@[1]@ == p@,
                        forall|k: int| 0 <= k < i ==> #[trigger] out@[2 + k]@ == args@[k]@,
                    decreases args.len() - i,
                {
                    out.push(args[i].clone());
                    i = i + 1;
                }
                proof {
                    let words = self@.args();
                    assert(words == seq!["--socket"@, p@] + self@.command_words());
                    assert forall|k: int| 0 <= k < words.len() implies #[trigger] out@[k]@ == words[k] by {
                        if k >= 2 {
                            assert(out@[2 + (k - 2)]@ == args@[k - 2]@);
                        }
                    }
                }
                out
            },
            None => args,
        }
    }

    /// The same command, talking to the daemon at `path`.
    pub fn with_socket_path(self, path: &str) -> (r: Self)
        ensures
            r@ == self@.with_socket(Some(path@)),
    {
        let socket_path = Some(path.to_owned());
        match self {
            HandoffCommand::Login { executable, .. } => HandoffCommand::Login { executable, socket_path },
            HandoffCommand::Logout { executable, .. } => HandoffCommand::Logout { executable, socket_path },
            HandoffCommand::Ssh { executable, username, host, .. } => HandoffCommand::Ssh {
                executable,
                socket_path,
                username,
                host,
            },
            HandoffCommand::Nc { executable, host, port, .. } => HandoffCommand::Nc {
                executable,
                socket_path,
                host,
                port,
            },
        }
    }
}

#[derive(Debug, Clone, PartialEq, Eq)]
pub enum HandoffError {
    InvalidArgument(String),
    Spawn(String),
    Wait(String),
}

impl HandoffError {
    pub open spec fn message_spec(&self) -> Seq<char> {
        match self {
            HandoffError::InvalidArgument(d) => "interactive child argument is invalid: "@ + d@,
            HandoffError::Spawn(d) => "interactive child could not be started: "@ + d@,
            HandoffError::Wait(d) => "interactive child could not be waited on: "@ + d@,
        }
    }

    pub fn message(&self) -> (r: String)
        ensures
            r@ == self.message_spec(),
    {
        let (prefix, detail) = match self {
            HandoffError::InvalidArgument(d) => ("interactive child argument is invalid: ", d),
            HandoffError::Spawn(d) => ("interactive child could not be started: ", d),
            HandoffError::Wait(d) => ("interactive child could not be waited on: ", d),
        };
        let mut v = chars_of(prefix);
        append_str(&mut v, detail.as_str());
        string_from_chars(&v)
    }
}

/// How an interactive child ended; times are in milliseconds of a monotonic
/// clock.
#[derive(Debug, Clone, PartialEq, Eq)]
pub struct HandoffResult {
    pub operation: LocalOperation,
    pub exit_status: Option<i32>,
    pub started_at: u64,
    pub finished_at: u64,
}

/// A user name for `ssh user@host`: not empty, no `@`, no white space.
pub open spec fn valid_ssh_username(value: Seq<char>) -> bool {
    value.len() > 0 && !value.contains('@') && !has_ws(value)
}

/// A host for `ssh` or `nc`: not empty, no `@`, no white space.
pub open spec fn valid_ssh_host(value: Seq<char>) -> bool {
    value.len() > 0 && !value.contains('@') && !has_ws(value)
}

pub fn validate_ssh_username(value: &str) -> (r: Result<(), HandoffError>)
    ensures
        r.is_ok() == valid_ssh_username(value@),
        r matches Err(e) ==> e == HandoffError::InvalidArgument(e->InvalidArgument_0)
            && e->InvalidArgument_0@ == "SSH username must be non-empty and cannot contain @ or whitespace"@,
{
    let v = chars_of(value);
    if v.len() == 0 || has_char(&v, '@') || any_whitespace(&v) {
        return Err(HandoffError::InvalidArgument(
            "SSH username must be non-empty and cannot contain @ or whitespace".to_owned(),
        ));
    }
    Ok(())
}

pub fn validate_ssh_host(value: &str) -> (r: Result<(), HandoffError>)
    ensures
        r.is_ok() == valid_ssh_host(value@),
        r matches Err(e) ==> e == HandoffError::InvalidArgument(e->InvalidArgument_0)
            && e->InvalidArgument_0@ == "SSH host must be a selected host without @ or whitespace"@,
{
    let v = chars_of(value);
    if v.len() == 0 || any_whitespace(&v) || has_char(&v, '@') {
        return Err(HandoffError::InvalidArgument(
            "SSH host must be a selected host without @ or whitespace".to_owned(),
        ));
    }
    Ok(())
}

/// The port that `u16::from_str` reads from `value`, where it is not zero.
pub fn parse_nc_port(value: &str) -> (r: Result<u16, HandoffError>)
    ensures
        match parse_unsigned_spec(value@, u16::MAX as nat) {
            None => r matches Err(HandoffError::InvalidArgument(m)) && m@ == "netcat port must be an integer"@,
            Some(p) if p == 0 => r matches Err(HandoffError::InvalidArgument(m)) && m@ == "netcat port must be between 1 and 65535"@,
            Some(p) => r == Ok::<u16, HandoffError>(p as u16),
        },
{
    let v = chars_of(value);
    let port = match parse_unsigned(&v, 65535) {
        Some(p) => p,
        None => {
            return Err(HandoffError::InvalidArgument("netcat port must be an integer".to_owned()));
        },
    };
    if port == 0 {
        return Err(HandoffError::InvalidArgument("netcat port must be between 1 and 65535".to_owned()));
    }
    Ok(port as u16)
}

/// `tailscale ssh [user@]host`, once host and user name pass their checks
/// (the host is checked first).
pub fn ssh_command(executable: &str, username: Option<&str>, host: &str) -> (r: Result<HandoffCommand, HandoffError>)
    ensures
        !valid_ssh_host(host@) ==> (r matches Err(HandoffError::InvalidArgument(m))
            && m@ == "SSH host must be a selected host without @ or whitespace"@),
        valid_ssh_host(host@) && (username matches Some(u) && !valid_ssh_username(u@)) ==> (r matches Err(HandoffError::InvalidArgument(m))
            && m@ == "SSH username must be non-empty and cannot contain @ or whitespace"@),
        valid_ssh_host(host@) && !(username matches Some(u) && !valid_ssh_username(u@)) ==> (r matches Ok(c) && c@ == HandoffCommandView::Ssh {
            executable: executable@,
            socket_path: None,
            username: match username {
                Some(u) => Some(u@),
                None => None,
            },
            host: host@,
        }),
{
    validate_ssh_host(host)?;
    if let Some(u) = username {
        validate_ssh_username(u)?;
    }
    let user = match username {
        Some(u) => Some(u.to_owned()),
        None => None,
    };
    Ok(HandoffCommand::Ssh {
        executable: executable.to_owned(),
        socket_path: None,
        username: user,
        host: host.to_owned(),
    })
}

/// `tailscale nc host port`, once the host and port pass their checks.
pub fn nc_command(executable: &str, host: &str, port: &str) -> (r: Result<HandoffCommand, HandoffError>)
    ensures
        !valid_ssh_host(host@) ==> (r matches Err(HandoffError::InvalidArgument(m))
            && m@ == "SSH host must be a selected host without @ or whitespace"@),
        valid_ssh_host(host@) ==> match parse_unsigned_spec(port@, u16::MAX as nat) {
            None => r matches Err(HandoffError::InvalidArgument(m)) && m@ == "netcat port must be an integer"@,
            Some(p) if p == 0 => r matches Err(HandoffError::InvalidArgument(m)) && m@ == "netcat port must be between 1 and 65535"@,
            Some(p) => r matches Ok(c) && c@ == HandoffCommandView::Nc {
                executable: executable@,
                socket_path: None,
                host: host@,
                port: p as u16,
            },
        },
{
    validate_ssh_host(host)?;
    let port = parse_nc_port(port)?;
    Ok(HandoffCommand::Nc {
        executable: executable.to_owned(),
        socket_path: None,
        host: host.to_owned(),
        port,
    })
}

pub fn login_command(executable: &str) -> (r: HandoffCommand)
    ensures
        r@ == (HandoffCommandView::Login { executable: executable@, socket_path: None }),
{
    HandoffCommand::Login { executable: executable.to_owned(), socket_path: None }
}

pub fn logout_command(executable: &str) -> (r: HandoffCommand)
    ensures
        r@ == (HandoffCommandView::Logout { executable: executable@, socket_path: None }),
{
    HandoffCommand::Logout { executable: executable.to_owned(), socket_path: None }
}

/// How long the child ran; zero where the clock readings are out of order.
pub fn bounded_handoff_duration(result: &HandoffResult) -> (r: u64)
    ensures
        result.finished_at >= result.started_at ==> r == result.finished_at - result.started_at,
        result.finished_at < result.started_at ==> r == 0,
{
    match result.finished_at.checked_sub(result.started_at) {
        Some(d) => d,
        None => 0,
    }
}

} // verus!

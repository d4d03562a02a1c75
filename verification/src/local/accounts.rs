//! Local accounts: the profiles that `tailscale switch` manages.
use vstd::prelude::*;

use crate::domain::LocalFailureKind;
use crate::local::process::{
    command_with_words, is_new_command, LocalCommand, LocalOperation, LocalProcessError,
};
use crate::text::{
    append_str, chars_of, lower_seq, lowercase, seq_contains, str_contains, string_from_chars,
    trim, trim_chars,
};

verus! {

#[derive(Debug, Clone, PartialEq, Eq)]
pub enum AccountError {
    Unsupported,
    PermissionDenied,
    TimedOut,
    Cancelled,
    InvalidJson(String),
    Command(String),
    EmptyId,
}

/// How a failed command's error text is read: what it names decides the kind.
pub open spec fn command_detail_kind(detail: Seq<char>) -> LocalFailureKind {
    let d = lower_seq(detail);
    if seq_contains(d, "permission denied"@) || seq_contains(d, "access is denied"@) {
        LocalFailureKind::PermissionDenied
    } else if seq_contains(d, "unknown command"@) || seq_contains(d, "unrecognized option"@)
        || seq_contains(d, "not supported"@) {
        LocalFailureKind::UnsupportedClient
    } else if seq_contains(d, "timed out"@) || seq_contains(d, "timeout"@) {
        LocalFailureKind::TimedOut
    } else {
        LocalFailureKind::Transport
    }
}

pub fn classify_command_detail(detail: &str) -> (r: LocalFailureKind)
    ensures
        r == command_detail_kind(detail@),
{
    let d = lowercase(&chars_of(detail));
    if str_contains(&d, "permission denied") || str_contains(&d, "access is denied") {
        LocalFailureKind::PermissionDenied
    } else if str_contains(&d, "unknown command") || str_contains(&d, "unrecognized option")
        || str_contains(&d, "not supported") {
        LocalFailureKind::UnsupportedClient
    } else if str_contains(&d, "timed out") || str_contains(&d, "timeout") {
        LocalFailureKind::TimedOut
    } else {
        LocalFailureKind::Transport
    }
}

impl AccountError {
    pub open spec fn message_spec(&self) -> Seq<char> {
        match self {
            AccountError::Unsupported => "account command is unavailable for this client"@,
            AccountError::PermissionDenied => "account command permission denied"@,
            AccountError::TimedOut => "account command timed out"@,
            AccountError::Cancelled => "account command cancelled"@,
            AccountError::InvalidJson(d) => "account JSON was invalid: "@ + d@,
            AccountError::Command(d) => "account command failed: "@ + d@,
            AccountError::EmptyId => "account ID cannot be empty"@,
        }
    }

    /// The text that describes the error.
    pub fn message(&self) -> (r: String)
        ensures
            r@ == self.message_spec(),
    {
        match self {
            AccountError::Unsupported => "account command is unavailable for this client".to_owned(),
            AccountError::PermissionDenied => "account command permission denied".to_owned(),
            AccountError::TimedOut => "account command timed out".to_owned(),
            AccountError::Cancelled => "account command cancelled".to_owned(),
            AccountError::InvalidJson(d) => {
                let mut v = chars_of("account JSON was invalid: ");
                append_str(&mut v, d.as_str());
                string_from_chars(&v)
            },
            AccountError::Command(d) => {
                let mut v = chars_of("account command failed: ");
                append_str(&mut v, d.as_str());
                string_from_chars(&v)
            },
            AccountError::EmptyId => "account ID cannot be empty".to_owned(),
        }
    }

    pub open spec fn failure_kind_spec(&self) -> LocalFailureKind {
        match self {
            AccountError::Unsupported => LocalFailureKind::UnsupportedClient,
            AccountError::PermissionDenied => LocalFailureKind::PermissionDenied,
            AccountError::TimedOut => LocalFailureKind::TimedOut,
            AccountError::Cancelled => LocalFailureKind::Cancelled,
            AccountError::EmptyId | AccountError::InvalidJson(_) => LocalFailureKind::InvalidOutput,
            AccountError::Command(detail) => command_detail_kind(detail@),
        }
    }

    pub fn failure_kind(&self) -> (r: LocalFailureKind)
        ensures
            r == self.failure_kind_spec(),
    {
        match self {
            AccountError::Unsupported => LocalFailureKind::UnsupportedClient,
            AccountError::PermissionDenied => LocalFailureKind::PermissionDenied,
            AccountError::TimedOut => LocalFailureKind::TimedOut,
            AccountError::Cancelled => LocalFailureKind::Cancelled,
            AccountError::EmptyId | AccountError::InvalidJson(_) => LocalFailureKind::InvalidOutput,
            AccountError::Command(detail) => classify_command_detail(detail.as_str()),
        }
    }

    pub fn retryable(&self) -> (r: bool)
        ensures
            r == (self is Command || self is TimedOut),
    {
        match self {
            AccountError::Command(_) | AccountError::TimedOut => true,
            _ => false,
        }
    }
}

/// The account error for a command that could not run to completion.
pub fn process_error(error: LocalProcessError) -> (r: AccountError)
    ensures
        r == (match error {
            LocalProcessError::PermissionDenied => AccountError::PermissionDenied,
            LocalProcessError::TimedOut => AccountError::TimedOut,
            LocalProcessError::Cancelled => AccountError::Cancelled,
            _ => r,
        }),
        !(error is PermissionDenied || error is TimedOut || error is Cancelled) ==> (r is Command
            && r->Command_0@ == error.message_spec()),
{
    match error {
        LocalProcessError::PermissionDenied => AccountError::PermissionDenied,
        LocalProcessError::TimedOut => AccountError::TimedOut,
        LocalProcessError::Cancelled => AccountError::Cancelled,
        other => AccountError::Command(other.message()),
    }
}

/// An account ID as given, unless it is empty or only white space.
pub fn valid_id(value: &str) -> (r: Result<&str, AccountError>)
    ensures
        trim(value@).len() == 0 ==> r == Err::<&str, AccountError>(AccountError::EmptyId),
        trim(value@).len() != 0 ==> r == Ok::<&str, AccountError>(value),
{
    let t = trim_chars(&chars_of(value));
    if t.len() == 0 {
        Err(AccountError::EmptyId)
    } else {
        Ok(value)
    }
}

pub fn list_command(path: &str, timeout_ms: u64) -> (r: LocalCommand)
    ensures
        is_new_command(r, path@, LocalOperation::SwitchList, seq!["switch"@, "--list"@, "--json"@]),
        r.timeout_ms == Some(timeout_ms),
{
    let r = command_with_words(path, LocalOperation::SwitchList, &["switch", "--list", "--json"], Some(timeout_ms));
    proof {
        assert(["switch", "--list", "--json"]@.map_values(|w: &str| w@) =~= seq!["switch"@, "--list"@, "--json"@]);
    }
    r
}


pub fn switch_command(path: &str, timeout_ms: u64, account_id: &str) -> (r: Result<
    LocalCommand,
    AccountError,
>)
    ensures
        trim(account_id@).len() == 0 ==> r == Err::<LocalCommand, AccountError>(
            AccountError::EmptyId,
        ),
        trim(account_id@).len() != 0 ==> r is Ok && is_new_command(
            r->Ok_0,
            path@,
            LocalOperation::Switch,
            seq!["switch"@, account_id@],
        ) && r->Ok_0.timeout_ms == Some(timeout_ms),
{
    let account_id = valid_id(account_id)?;
    let r = command_with_words(path, LocalOperation::Switch, &["switch", account_id], Some(timeout_ms));
    proof {
        assert(["switch", account_id]@.map_values(|w: &str| w@) =~= seq!["switch"@, account_id@]);
    }
    Ok(r)
}

pub fn remove_command(path: &str, timeout_ms: u64, account_id: &str) -> (r: Result<
    LocalCommand,
    AccountError,
>)
    ensures
        trim(account_id@).len() == 0 ==> r == Err::<LocalCommand, AccountError>(
            AccountError::EmptyId,
        ),
        trim(account_id@).len() != 0 ==> r is Ok && is_new_command(
            r->Ok_0,
            path@,
            LocalOperation::SwitchRemove,
            seq!["switch"@, "remove"@, account_id@],
        ) && r->Ok_0.timeout_ms == Some(timeout_ms),
{
    let account_id = valid_id(account_id)?;
    let r = command_with_words(
        path,
        LocalOperation::SwitchRemove,
        &["switch", "remove", account_id],
        Some(timeout_ms),
    );
    proof {
        assert(["switch", "remove", account_id]@.map_values(|w: &str| w@) =~= seq![
            "switch"@,
            "remove"@,
            account_id@,
        ]);
    }
    Ok(r)
}

pub fn login_command(path: &str) -> (r: LocalCommand)
    ensures
        is_new_command(r, path@, LocalOperation::Login, seq!["login"@]),
        r.timeout_ms.is_none(),
{
    let r = command_with_words(path, LocalOperation::Login, &["login"], None);
    proof {
        assert(["login"]@.map_values(|w: &str| w@) =~= seq!["login"@]);
    }
    r
}

pub fn logout_command(path: &str) -> (r: LocalCommand)
    ensures
        is_new_command(r, path@, LocalOperation::Logout, seq!["logout"@]),
        r.timeout_ms.is_none(),
{
    let r = command_with_words(path, LocalOperation::Logout, &["logout"], None);
    proof {
        assert(["logout"]@.map_values(|w: &str| w@) =~= seq!["logout"@]);
    }
    r
}

} // verus!

//! What a local change to the machine's settings comes to: which fresh state
//! is read back after its command, and the verdict that the command's result
//! and that state give.

use vstd::prelude::*;

use crate::domain::opt_view;
use crate::task::{bounded_detail, bounded_detail_spec, mutation_detail};
use crate::text::{
    chars_of, join_chars, join_with, split_whitespace, starts_with, starts_with_str, string_from_chars, tokens_of,
};

verus! {

/// The kinds of change the local CLI is asked to make.
#[derive(Debug, Clone, Copy, PartialEq, Eq, Structural)]
pub enum MutationKind {
    Connect,
    Disconnect,
    Preferences,
    ExitNode,
    Advertisements,
    AccountSwitch,
    AccountRemove,
    SyspolicyReload,
}

/// A piece of fresh state read back after a change's command.
#[derive(Debug, Clone, Copy, PartialEq, Eq, Structural)]
pub enum FreshRead {
    Status,
    Preferences,
    Accounts,
    Policy,
}

/// How a change ended.
#[derive(Debug, Clone, Copy, PartialEq, Eq, Structural)]
pub enum MutationVerdict {
    Verified,
    VerificationMismatch,
    OutcomeUnknown,
    CommandFailed,
    ReadFailed,
}

/// The verdict on a change with the words an operator reads and the exit
/// status of its command.
#[derive(Debug, Clone, PartialEq, Eq)]
pub struct MutationResult {
    pub verdict: MutationVerdict,
    pub summary: String,
    pub detail: String,
    pub exit_status: Option<i32>,
}

/// What is known once a change's command has ended and its fresh state was
/// read: the command's failure (its detail), whether the wait for it was cut
/// short by cancellation or a timeout, its exit status, what a successful
/// command wrote to standard error, the failure of the fresh read, and how
/// the fresh state compares with the request (or why it cannot be compared).
#[derive(Debug, PartialEq, Eq)]
pub struct MutationEvidence {
    pub command_error: Option<String>,
    pub interrupted: bool,
    pub exit_status: Option<i32>,
    pub stderr: Option<String>,
    pub read_error: Option<String>,
    pub comparison: Result<bool, String>,
}

/// The fresh state a change is checked against, in the order it is read.
pub open spec fn fresh_reads_spec(kind: MutationKind) -> Seq<FreshRead> {
    match kind {
        MutationKind::Connect | MutationKind::Disconnect => seq![FreshRead::Status],
        MutationKind::Preferences | MutationKind::ExitNode | MutationKind::Advertisements => seq![
            FreshRead::Preferences,
        ],
        MutationKind::AccountSwitch | MutationKind::AccountRemove => seq![
            FreshRead::Accounts,
            FreshRead::Status,
            FreshRead::Preferences,
        ],
        MutationKind::SyspolicyReload => seq![FreshRead::Policy],
    }
}

/// The fresh state a change is checked against, in the order it is read;
/// for account changes a failed read ends the reading.
pub fn fresh_reads(kind: MutationKind) -> (r: Vec<FreshRead>)
    ensures
        r@ == fresh_reads_spec(kind),
{
    match kind {
        MutationKind::Connect | MutationKind::Disconnect => vec![FreshRead::Status],
        MutationKind::Preferences | MutationKind::ExitNode | MutationKind::Advertisements => vec![
            FreshRead::Preferences,
        ],
        MutationKind::AccountSwitch | MutationKind::AccountRemove => vec![
            FreshRead::Accounts,
            FreshRead::Status,
            FreshRead::Preferences,
        ],
        MutationKind::SyspolicyReload => vec![FreshRead::Policy],
    }
}

/// The summary given when the command of a change cannot be built from the
/// request; only these kinds of change can be refused so.
pub open spec fn rejection_summary(kind: MutationKind) -> Option<Seq<char>> {
    match kind {
        MutationKind::Preferences => Some("preference request rejected"@),
        MutationKind::Advertisements => Some("advertisement request rejected"@),
        MutationKind::AccountSwitch => Some("account switch request rejected"@),
        MutationKind::AccountRemove => Some("account removal request rejected"@),
        _ => None,
    }
}

/// The result of a change whose command could not be built, with `detail`
/// saying why: a failed command with no exit status. Nothing for the kinds
/// of change whose command is always built.
pub fn rejected_request(kind: MutationKind, detail: &str) -> (r: Option<MutationResult>)
    ensures
        match rejection_summary(kind) {
            None => r is None,
            Some(s) => r matches Some(m) && m.verdict == MutationVerdict::CommandFailed
                && m.summary@ == s && m.detail@ == detail@ && m.exit_status is None,
        },
{
    let summary = match kind {
        MutationKind::Preferences => "preference request rejected",
        MutationKind::Advertisements => "advertisement request rejected",
        MutationKind::AccountSwitch => "account switch request rejected",
        MutationKind::AccountRemove => "account removal request rejected",
        _ => {
            return None;
        },
    };
    Some(
        MutationResult {
            verdict: MutationVerdict::CommandFailed,
            summary: summary.to_owned(),
            detail: detail.to_owned(),
            exit_status: None,
        },
    )
}

/// `base`, then what the command wrote to standard error where it wrote
/// anything.
pub open spec fn with_stderr(base: Seq<char>, stderr: Option<Seq<char>>) -> Seq<char> {
    match stderr {
        None => base,
        Some(e) => base + "; bounded stderr: "@ + e,
    }
}

pub open spec fn comparison_view(c: Result<bool, String>) -> Result<bool, Seq<char>> {
    match c {
        Ok(b) => Ok(b),
        Err(d) => Err(d@),
    }
}

/// The verdict, summary and detail that the evidence of a change gives.
/// A failed command whose wait was cut short is judged by the fresh state,
/// since it may have taken effect; another failed command failed. A command
/// that ran is judged by the fresh state where it could be read.
pub open spec fn outcome_spec(
    command_error: Option<Seq<char>>,
    interrupted: bool,
    stderr: Option<Seq<char>>,
    read_error: Option<Seq<char>>,
    comparison: Result<bool, Seq<char>>,
) -> (MutationVerdict, Seq<char>, Seq<char>) {
    match command_error {
        Some(cd) => if interrupted {
            match read_error {
                Some(d) => (MutationVerdict::OutcomeUnknown, "command outcome unknown after interruption"@, d),
                None => match comparison {
                    Ok(true) => (
                        MutationVerdict::Verified,
                        "interrupted wait, fresh state verified"@,
                        with_stderr("the command wait ended, but fresh authoritative state matches"@, stderr),
                    ),
                    Ok(false) => (
                        MutationVerdict::VerificationMismatch,
                        "fresh state did not match after interruption"@,
                        "fresh authoritative state determined that the request was not applied"@,
                    ),
                    Err(d) => (MutationVerdict::OutcomeUnknown, "command outcome unknown after interruption"@, d),
                },
            }
        } else {
            (MutationVerdict::CommandFailed, "local command failed"@, cd)
        },
        None => match read_error {
            Some(d) => (
                MutationVerdict::ReadFailed,
                "command ran but fresh verification failed"@,
                with_stderr(d, stderr),
            ),
            None => match comparison {
                Ok(true) => (
                    MutationVerdict::Verified,
                    "command completed and state verified"@,
                    with_stderr("fresh authoritative local state matches the submitted fields"@, stderr),
                ),
                Ok(false) => (
                    MutationVerdict::VerificationMismatch,
                    "fresh state did not match the request"@,
                    with_stderr("the daemon or policy returned a different value; no retry was attempted"@, stderr),
                ),
                Err(d) => (
                    MutationVerdict::ReadFailed,
                    "verification could not compare the request"@,
                    with_stderr(d, stderr),
                ),
            },
        },
    }
}

fn stderr_text(s: &Option<String>) -> (r: Option<&str>)
    ensures
        match r {
            None => s.is_none(),
            Some(t) => s matches Some(x) && t@ == x@,
        },
{
    match s {
        Some(x) => Some(x.as_str()),
        None => None,
    }
}

fn result_of(verdict: MutationVerdict, summary: &str, detail: String, exit_status: Option<i32>) -> (r: MutationResult)
    ensures
        r.verdict == verdict,
        r.summary@ == summary@,
        r.detail@ == detail@,
        r.exit_status == exit_status,
{
    MutationResult { verdict, summary: summary.to_owned(), detail, exit_status }
}

/// The result of a change from its evidence; the exit status is the
/// command's own.
pub fn mutation_outcome(e: &MutationEvidence) -> (r: MutationResult)
    ensures
        (r.verdict, r.summary@, r.detail@) == outcome_spec(
            opt_view(e.command_error),
            e.interrupted,
            opt_view(e.stderr),
            opt_view(e.read_error),
            comparison_view(e.comparison),
        ),
        r.exit_status == e.exit_status,
{
    let stderr = stderr_text(&e.stderr);
    let status = e.exit_status;
    match &e.command_error {
        Some(cd) => {
            if e.interrupted {
                match &e.read_error {
                    Some(d) => result_of(
                        MutationVerdict::OutcomeUnknown,
                        "command outcome unknown after interruption",
                        d.clone(),
                        status,
                    ),
                    None => match &e.comparison {
                        Ok(true) => result_of(
                            MutationVerdict::Verified,
                            "interrupted wait, fresh state verified",
                            mutation_detail("the command wait ended, but fresh authoritative state matches", stderr),
                            status,
                        ),
                        Ok(false) => result_of(
                            MutationVerdict::VerificationMismatch,
                            "fresh state did not match after interruption",
                            "fresh authoritative state determined that the request was not applied".to_owned(),
                            status,
                        ),
                        Err(d) => result_of(
                            MutationVerdict::OutcomeUnknown,
                            "command outcome unknown after interruption",
                            d.clone(),
                            status,
                        ),
                    },
                }
            } else {
                result_of(MutationVerdict::CommandFailed, "local command failed", cd.clone(), status)
            }
        },
        None => match &e.read_error {
            Some(d) => result_of(
                MutationVerdict::ReadFailed,
                "command ran but fresh verification failed",
                mutation_detail(d.as_str(), stderr),
                status,
            ),
            None => match &e.comparison {
                Ok(true) => result_of(
                    MutationVerdict::Verified,
                    "command completed and state verified",
                    mutation_detail("fresh authoritative local state matches the submitted fields", stderr),
                    status,
                ),
                Ok(false) => result_of(
                    MutationVerdict::VerificationMismatch,
                    "fresh state did not match the request",
                    mutation_detail(
                        "the daemon or policy returned a different value; no retry was attempted",
                        stderr,
                    ),
                    status,
                ),
                Err(d) => result_of(
                    MutationVerdict::ReadFailed,
                    "verification could not compare the request",
                    mutation_detail(d.as_str(), stderr),
                    status,
                ),
            },
        },
    }
}

/// Whether a word of a command's text is a web address.
pub open spec fn is_url(word: Seq<char>) -> bool {
    starts_with(word, "http://"@) || starts_with(word, "https://"@)
}

/// A word as an operator reads it: a web address is masked.
pub open spec fn masked_word(word: Seq<char>) -> Seq<char> {
    if is_url(word) {
        "[url redacted]"@
    } else {
        word
    }
}

/// The most bytes of a command's text that an operator is shown.
pub const OPERATOR_DETAIL_CAP: usize = 4096;

/// What an operator is shown of a command's text: its words with web
/// addresses masked, joined by single spaces, kept within
/// `OPERATOR_DETAIL_CAP` bytes (the latest part).
pub open spec fn operator_detail_spec(text: Seq<char>) -> Seq<char> {
    bounded_detail_spec(
        join_with(tokens_of(text).map_values(|w: Seq<char>| masked_word(w)), " "@),
        OPERATOR_DETAIL_CAP as nat,
    )
}

/// What an operator is shown of a command's text.
pub fn operator_detail(text: &str) -> (r: String)
    ensures
        r@ == operator_detail_spec(text@),
{
    let words = split_whitespace(&chars_of(text));
    let ghost tw = tokens_of(text@);
    let mut shown: Vec<Vec<char>> = Vec::new();
    let mut i: usize = 0;
    while i < words.len()
        invariant
            i <= words@.len(),
            words@.len() == tw.len(),
            forall|k: int| 0 <= k < words@.len() ==> #[trigger] words@[k]@ == tw[k],
            shown@.len() == i,
            forall|k: int| 0 <= k < i ==> #[trigger] shown@[k]@ == masked_word(tw[k]),
        decreases words.len() - i,
    {
        let w = &words[i];
        if starts_with_str(w, "http://") || starts_with_str(w, "https://") {
            shown.push(chars_of("[url redacted]"));
        } else {
            shown.push(w.clone());
        }
        i = i + 1;
    }
    proof {
        assert(shown@.map_values(|v: Vec<char>| v@) =~= tw.map_values(|w: Seq<char>| masked_word(w)));
    }
    let joined = string_from_chars(&join_chars(&shown, " "));
    bounded_detail(joined.as_str(), OPERATOR_DETAIL_CAP)
}

/// The detail of a failed change's command: the failure's own detail, and
/// where the command exited non-zero with something on standard error, what
/// an operator is shown of that too.
pub fn command_error_detail(failure_detail: &str, nonzero_stderr: Option<&str>) -> (r: String)
    ensures
        r@ == match nonzero_stderr {
            Some(e) => if tokens_of(e@).len() > 0 {
                failure_detail@ + "; bounded stderr: "@ + operator_detail_spec(e@)
            } else {
                failure_detail@
            },
            None => failure_detail@,
        },
{
    match nonzero_stderr {
        Some(e) => {
            let words = split_whitespace(&chars_of(e));
            if words.len() > 0 {
                let shown = operator_detail(e);
                mutation_detail(failure_detail, Some(shown.as_str()))
            } else {
                failure_detail.to_owned()
            }
        },
        None => failure_detail.to_owned(),
    }
}

/// A change is reported verified only when its fresh state was read and
/// matched the request, and a command that failed without being cut short is
/// never judged by fresh state at all.
pub proof fn verified_only_on_fresh_match(
    command_error: Option<Seq<char>>,
    interrupted: bool,
    stderr: Option<Seq<char>>,
    read_error: Option<Seq<char>>,
    comparison: Result<bool, Seq<char>>,
)
    ensures
        outcome_spec(command_error, interrupted, stderr, read_error, comparison).0 == MutationVerdict::Verified
            ==> read_error is None && comparison == Ok::<bool, Seq<char>>(true),
        (command_error is Some && !interrupted) ==> outcome_spec(
            command_error,
            interrupted,
            stderr,
            read_error,
            comparison,
        ).0 == MutationVerdict::CommandFailed,
{
}

} // verus!

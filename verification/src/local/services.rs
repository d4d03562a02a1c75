//! Serve, Funnel, metrics and bug reports: the status and reset commands,
//! the bug-report command and identifier, and the redaction of metrics.
use vstd::prelude::*;

use crate::local::client::{lossy_text, utf8_lossy};
use crate::local::process::{command_with_words, is_command, args_are, LocalCommand, LocalOperation, OutputMode, StdinMode};
use crate::text::{
    append_chars, chars_eq, chars_of, is_alnum, is_ctrl, join_chars, join_with, lines, lines_of,
    lower_seq, lowercase, owned_strings, seq_contains, starts_with, starts_with_str, str_contains,
    string_from_chars,
};

verus! {

#[derive(Debug, Clone, PartialEq, Eq)]
pub struct ServiceDecodeError {
    pub detail: String,
}

impl ServiceDecodeError {
    /// The text that describes the error: the detail itself.
    pub fn message(&self) -> (r: String)
        ensures
            r@ == self.detail@,
    {
        self.detail.clone()
    }
}

/// A command with the words given and nothing else changed but the time limit.
pub open spec fn is_plain_command(c: LocalCommand, path: Seq<char>, operation: LocalOperation, words: Seq<Seq<char>>, timeout_ms: u64) -> bool {
    is_command(c, path, operation, words, Some(timeout_ms), OutputMode::Collect, OutputMode::Collect, 4194304, 262144)
}

pub fn serve_status_command(path: &str, timeout_ms: u64) -> (r: LocalCommand)
    ensures
        is_plain_command(r, path@, LocalOperation::ServeStatus, seq!["serve"@, "status"@, "--json"@], timeout_ms),
{
    let words = ["serve", "status", "--json"];
    let r = command_with_words(path, LocalOperation::ServeStatus, &words, Some(timeout_ms));
    proof {
        assert(words@.map_values(|w: &str| w@) =~= seq!["serve"@, "status"@, "--json"@]);
    }
    r
}

pub fn funnel_status_command(path: &str, timeout_ms: u64) -> (r: LocalCommand)
    ensures
        is_plain_command(r, path@, LocalOperation::FunnelStatus, seq!["funnel"@, "status"@, "--json"@], timeout_ms),
{
    let words = ["funnel", "status", "--json"];
    let r = command_with_words(path, LocalOperation::FunnelStatus, &words, Some(timeout_ms));
    proof {
        assert(words@.map_values(|w: &str| w@) =~= seq!["funnel"@, "status"@, "--json"@]);
    }
    r
}

pub fn serve_reset_command(path: &str, timeout_ms: u64) -> (r: LocalCommand)
    ensures
        is_plain_command(r, path@, LocalOperation::ServeReset, seq!["serve"@, "reset"@], timeout_ms),
{
    let words = ["serve", "reset"];
    let r = command_with_words(path, LocalOperation::ServeReset, &words, Some(timeout_ms));
    proof {
        assert(words@.map_values(|w: &str| w@) =~= seq!["serve"@, "reset"@]);
    }
    r
}

pub fn funnel_reset_command(path: &str, timeout_ms: u64) -> (r: LocalCommand)
    ensures
        is_plain_command(r, path@, LocalOperation::FunnelReset, seq!["funnel"@, "reset"@], timeout_ms),
{
    let words = ["funnel", "reset"];
    let r = command_with_words(path, LocalOperation::FunnelReset, &words, Some(timeout_ms));
    proof {
        assert(words@.map_values(|w: &str| w@) =~= seq!["funnel"@, "reset"@]);
    }
    r
}

/// `tailscale metrics print`, its output captured up to `output_limit` bytes.
pub fn metrics_command(path: &str, timeout_ms: u64, output_limit: usize) -> (r: LocalCommand)
    ensures
        is_command(r, path@, LocalOperation::Metrics, seq!["metrics"@, "print"@], Some(timeout_ms), OutputMode::Collect, OutputMode::Collect, output_limit, 262144),
{
    let words = ["metrics", "print"];
    let r = command_with_words(path, LocalOperation::Metrics, &words, Some(timeout_ms));
    proof {
        assert(words@.map_values(|w: &str| w@) =~= seq!["metrics"@, "print"@]);
    }
    r.with_limits(output_limit, 262144)
}

/// A control character other than newline and tab.
pub open spec fn forbidden_in_note(c: char) -> bool {
    is_ctrl(c) && c != '\n' && c != '\t'
}

pub open spec fn has_forbidden(n: Seq<char>) -> bool {
    exists|i: int| 0 <= i < n.len() && forbidden_in_note(#[trigger] n[i])
}

pub open spec fn bugreport_words(note: Option<Seq<char>>, diagnose: bool) -> Seq<Seq<char>> {
    let head = if diagnose { seq!["bugreport"@, "--diagnose"@] } else { seq!["bugreport"@] };
    match note {
        Some(n) => if n.len() > 0 { head.push(n) } else { head },
        None => head,
    }
}

/// `tailscale bugreport`, with an optional note that may hold newlines and
/// tabs but no other control character.
pub fn bugreport_command(path: &str, timeout_ms: u64, note: Option<&str>, diagnose: bool) -> (r: Result<LocalCommand, ServiceDecodeError>)
    ensures
        (note matches Some(n) && has_forbidden(n@))
            ==> (r matches Err(e) && e.detail@ == "bug-report note contains a control character"@),
        !(note matches Some(n) && has_forbidden(n@))
            ==> (r matches Ok(c) && is_plain_command(c, path@, LocalOperation::BugReport, bugreport_words(
                match note { Some(n) => Some(n@), None => None },
                diagnose,
            ), timeout_ms)),
{
    if let Some(n) = note {
        let nc = chars_of(n);
        let mut i: usize = 0;
        while i < nc.len()
            invariant
                i <= nc.len(),
                nc@ == n@,
                note == Some(n),
                forall|k: int| 0 <= k < i ==> !forbidden_in_note(#[trigger] nc@[k]),
            decreases nc.len() - i,
        {
            let c = nc[i];
            if crate::text::is_control(c) && c != '\n' && c != '\t' {
                proof {
                    assert(forbidden_in_note(n@[i as int]));
                    assert(has_forbidden(n@));
                }
                return Err(ServiceDecodeError { detail: "bug-report note contains a control character".to_owned() });
            }
            i = i + 1;
        }
    }
    let mut args = owned_strings(&["bugreport"]);
    if diagnose {
        args.push("--diagnose".to_owned());
    }
    let ghost head = args@;
    if let Some(n) = note {
        if chars_of(n).len() > 0 {
            args.push(n.to_owned());
        }
    }
    let ghost words = bugreport_words(match note { Some(n) => Some(n@), None => None }, diagnose);
    proof {
        let hw = if diagnose { seq!["bugreport"@, "--diagnose"@] } else { seq!["bugreport"@] };
        assert(args_are(head, hw));
        assert(args_are(args@, words));
    }
    Ok(LocalCommand::new(path.to_owned(), LocalOperation::BugReport, args).with_timeout(timeout_ms))
}

/// A character that can be part of a report identifier.
pub open spec fn is_id_char(c: char) -> bool {
    is_alnum(c) || c == '-'
}

/// The runs of `s` between characters that cannot be part of an identifier.
pub open spec fn id_runs(s: Seq<char>) -> Seq<Seq<char>>
    decreases s.len(),
{
    if s.len() == 0 {
        seq![Seq::<char>::empty()]
    } else {
        let rest = id_runs(s.drop_last());
        if !is_id_char(s.last()) {
            rest.push(Seq::<char>::empty())
        } else {
            rest.update(rest.len() - 1, rest.last().push(s.last()))
        }
    }
}

proof fn lemma_id_runs_nonempty(s: Seq<char>)
    ensures
        id_runs(s).len() >= 1,
    decreases s.len(),
{
    if s.len() > 0 {
        lemma_id_runs_nonempty(s.drop_last());
    }
}

fn split_id_runs(s: &Vec<char>) -> (r: Vec<Vec<char>>)
    ensures
        r@.map_values(|v: Vec<char>| v@) == id_runs(s@),
{
    let mut pieces: Vec<Vec<char>> = Vec::new();
    let mut cur: Vec<char> = Vec::new();
    let mut i: usize = 0;
    while i < s.len()
        invariant
            i <= s.len(),
            pieces@.map_values(|v: Vec<char>| v@).push(cur@) == id_runs(s@.take(i as int)),
        decreases s.len() - i,
    {
        proof {
            lemma_id_runs_nonempty(s@.take(i as int));
            assert(s@.take(i + 1).drop_last() =~= s@.take(i as int));
        }
        let c = s[i];
        if !(crate::text::is_ascii_alphanumeric(c) || c == '-') {
            let ghost before = pieces@.map_values(|v: Vec<char>| v@).push(cur@);
            pieces.push(cur);
            cur = Vec::new();
            proof {
                assert(pieces@.map_values(|v: Vec<char>| v@).push(cur@) =~= before.push(Seq::<char>::empty()));
            }
        } else {
            let ghost before = pieces@.map_values(|v: Vec<char>| v@).push(cur@);
            cur.push(c);
            proof {
                assert(pieces@.map_values(|v: Vec<char>| v@).push(cur@) =~= before.update(before.len() - 1, before.last().push(c)));
            }
        }
        i = i + 1;
    }
    proof {
        assert(s@.take(s.len() as int) =~= s@);
    }
    let ghost before = pieces@.map_values(|v: Vec<char>| v@);
    pieces.push(cur);
    proof {
        assert(pieces@.map_values(|v: Vec<char>| v@) =~= before.push(cur@));
    }
    pieces
}

/// A bug-report identifier: `BUG-` and at least one more identifier character.
pub open spec fn is_bug_id(t: Seq<char>) -> bool {
    starts_with(t, "BUG-"@) && t.len() > 4 && forall|k: int| 4 <= k < t.len() ==> is_id_char(#[trigger] t[k])
}

/// The identifiers among the runs, in order.
pub open spec fn bug_ids(runs: Seq<Seq<char>>) -> Seq<Seq<char>>
    decreases runs.len(),
{
    if runs.len() == 0 {
        Seq::empty()
    } else if is_bug_id(runs.last()) {
        bug_ids(runs.drop_last()).push(runs.last())
    } else {
        bug_ids(runs.drop_last())
    }
}

fn is_bug_id_chars(t: &Vec<char>) -> (r: bool)
    ensures
        r == is_bug_id(t@),
{
    proof {
        reveal_strlit("BUG-");
    }
    if !starts_with_str(t, "BUG-") || t.len() <= 4 {
        return false;
    }
    let mut k: usize = 4;
    while k < t.len()
        invariant
            4 <= k <= t.len(),
            forall|j: int| 4 <= j < k ==> is_id_char(#[trigger] t@[j]),
        decreases t.len() - k,
    {
        if !(crate::text::is_ascii_alphanumeric(t[k]) || t[k] == '-') {
            return false;
        }
        k = k + 1;
    }
    true
}

/// The one report identifier in the output of `tailscale bugreport`.
pub fn parse_bugreport_identifier(output: &str) -> (r: Result<String, ServiceDecodeError>)
    ensures
        ({
            let ids = bug_ids(id_runs(output@));
            &&& ids.len() == 0 ==> (r matches Err(e) && e.detail@ == "bug-report identifier was not returned"@)
            &&& ids.len() == 1 ==> (r matches Ok(id) && id@ == ids[0])
            &&& ids.len() > 1 ==> (r matches Err(e) && e.detail@ == "bug-report output contained multiple report identifiers"@)
        }),
{
    let chars = chars_of(output);
    let runs = split_id_runs(&chars);
    let ghost rv = runs@.map_values(|v: Vec<char>| v@);
    let mut found: Option<usize> = None;
    let mut i: usize = 0;
    while i < runs.len()
        invariant
            i <= runs.len(),
            rv == runs@.map_values(|v: Vec<char>| v@),
            rv == id_runs(chars@),
            chars@ == output@,
            bug_ids(rv.take(i as int)).len() <= 1,
            match found {
                None => bug_ids(rv.take(i as int)).len() == 0,
                Some(j) => j < i && bug_ids(rv.take(i as int)).len() == 1 && bug_ids(rv.take(i as int))[0] == rv[j as int],
            },
        decreases runs.len() - i,
    {
        proof {
            assert(rv.take(i + 1).drop_last() =~= rv.take(i as int));
            assert(rv.take(i + 1).last() == rv[i as int]);
        }
        if is_bug_id_chars(&runs[i]) {
            if found.is_some() {
                proof {
                    lemma_bug_ids_grow(rv, (i + 1) as int);
                }
                return Err(ServiceDecodeError { detail: "bug-report output contained multiple report identifiers".to_owned() });
            }
            found = Some(i);
        }
        i = i + 1;
    }
    proof {
        assert(rv.take(runs.len() as int) =~= rv);
    }
    match found {
        Some(j) => Ok(string_from_chars(&runs[j])),
        None => Err(ServiceDecodeError { detail: "bug-report identifier was not returned".to_owned() }),
    }
}

/// Identifiers found in a prefix stay found in every longer prefix.
proof fn lemma_bug_ids_grow(runs: Seq<Seq<char>>, n: int)
    requires
        0 <= n <= runs.len(),
    ensures
        forall|m: int| n <= m <= runs.len() ==> bug_ids(#[trigger] runs.take(m)).len() >= bug_ids(runs.take(n)).len(),
    decreases runs.len() - n,
{
    if n < runs.len() {
        lemma_bug_ids_grow(runs, n + 1);
        assert(runs.take(n + 1).drop_last() =~= runs.take(n));
    }
    assert(runs.take(n) =~= runs.take(n));
}

/// A metrics line that may carry a credential.
pub open spec fn is_sensitive_line(line: Seq<char>) -> bool {
    let l = lower_seq(line);
    seq_contains(l, "password"@) || seq_contains(l, "private_key"@) || seq_contains(l, "private-key"@)
        || seq_contains(l, "api_key"@) || seq_contains(l, "api-key"@) || seq_contains(l, "authorization"@)
        || seq_contains(l, "bearer"@) || seq_contains(l, "token"@) || seq_contains(l, "secret"@)
}

pub open spec fn redact_line(line: Seq<char>) -> Seq<char> {
    if is_sensitive_line(line) {
        "[redacted]"@
    } else {
        line
    }
}

fn is_sensitive(line: &Vec<char>) -> (r: bool)
    ensures
        r == is_sensitive_line(line@),
{
    let l = lowercase(line);
    str_contains(&l, "password") || str_contains(&l, "private_key") || str_contains(&l, "private-key")
        || str_contains(&l, "api_key") || str_contains(&l, "api-key") || str_contains(&l, "authorization")
        || str_contains(&l, "bearer") || str_contains(&l, "token") || str_contains(&l, "secret")
}

/// Metrics output as text, each line that may carry a credential replaced
/// by `[redacted]`.
pub fn redacted_metrics(output: &[u8]) -> (r: String)
    ensures
        r@ == join_with(lines_of(lossy_text(output@)).map_values(|l: Seq<char>| redact_line(l)), "\n"@),
{
    let text = utf8_lossy(output);
    let chars = chars_of(text.as_str());
    let ls = lines(&chars);
    let ghost lv = lines_of(chars@);
    let mut out: Vec<Vec<char>> = Vec::new();
    let mut i: usize = 0;
    while i < ls.len()
        invariant
            i <= ls.len(),
            ls@.len() == lv.len(),
            forall|k: int| 0 <= k < ls@.len() ==> #[trigger] ls@[k]@ == lv[k],
            out@.map_values(|v: Vec<char>| v@) == lv.take(i as int).map_values(|l: Seq<char>| redact_line(l)),
        decreases ls.len() - i,
    {
        let ghost before = out@.map_values(|v: Vec<char>| v@);
        let ghost line = lv[i as int];
        if is_sensitive(&ls[i]) {
            let red = chars_of("[redacted]");
            out.push(red);
            proof {
                assert(out@.map_values(|v: Vec<char>| v@) =~= before.push(redact_line(line)));
            }
        } else {
            let mut copy: Vec<char> = Vec::new();
            append_chars(&mut copy, &ls[i]);
            proof {
                assert(copy@ =~= ls@[i as int]@);
            }
            out.push(copy);
            proof {
                assert(out@.map_values(|v: Vec<char>| v@) =~= before.push(redact_line(line)));
            }
        }
        proof {
            assert(lv.take(i + 1) =~= lv.take(i as int).push(lv[i as int]));
            assert(out@.map_values(|v: Vec<char>| v@) =~= lv.take(i + 1).map_values(|l: Seq<char>| redact_line(l)));
        }
        i = i + 1;
    }
    proof {
        assert(lv.take(ls.len() as int) =~= lv);
    }
    string_from_chars(&join_chars(&out, "\n"))
}

} // verus!

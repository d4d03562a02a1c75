//! Taildrop and Taildrive: the list, send and share commands, and the
//! reading of their output (targets, shares, progress lines).
use vstd::prelude::*;

use crate::domain::Timestamp;
use crate::local::process::{args_are, command_with_words, is_command, LocalCommand, LocalOperation, OutputMode};
use crate::numbers::{byte_len, char_utf8_len, decimal, format_u64, lemma_byte_len_prefix_monotone, parse_unsigned, parse_unsigned_spec};
use crate::text::{
    any_control, append_chars, append_str, chars_eq_str, chars_less, chars_lt, chars_of,
    eq_ignore_ascii_case, eq_ignore_case, find_chars, find_first, has_char, has_ctrl, lines,
    lines_of, lower_seq, lowercase, owned_strings, seq_contains, slice_chars, split_chars, split_on,
    split_whitespace, starts_with, starts_with_str, str_contains, string_from_chars,
    strip_suffix, strip_suffix_chars, tokens_of, trim, trim_chars, trim_end, trim_end_chars,
    lemma_chars_lt_irreflexive, lemma_chars_lt_total, lemma_chars_lt_transitive,
};

verus! {

#[derive(Debug, Clone, PartialEq, Eq)]
pub struct TransferParseError {
    pub detail: String,
}

impl TransferParseError {
    /// The text that describes the error: the detail itself.
    pub fn message(&self) -> (r: String)
        ensures
            r@ == self.detail@,
    {
        self.detail.clone()
    }
}

fn transfer_error(detail: &str) -> (r: TransferParseError)
    ensures
        r.detail@ == detail@,
{
    TransferParseError { detail: detail.to_owned() }
}

/// A device that Taildrop can send to.
#[derive(Debug, Clone, PartialEq, Eq)]
pub struct TaildropTarget {
    pub command_target: String,
    pub display_name: String,
    pub device_name: String,
    pub online: Option<bool>,
    pub capability_reason: Option<String>,
}

pub ghost struct TaildropTargetView {
    pub command_target: Seq<char>,
    pub display_name: Seq<char>,
    pub device_name: Seq<char>,
    pub online: Option<bool>,
    pub capability_reason: Option<Seq<char>>,
}

impl View for TaildropTarget {
    type V = TaildropTargetView;

    open spec fn view(&self) -> TaildropTargetView {
        TaildropTargetView {
            command_target: self.command_target@,
            display_name: self.display_name@,
            device_name: self.device_name@,
            online: self.online,
            capability_reason: crate::domain::opt_view(self.capability_reason),
        }
    }
}

pub open spec fn target_views(v: Seq<TaildropTarget>) -> Seq<TaildropTargetView> {
    v.map_values(|t: TaildropTarget| t@)
}

/// How far a transfer has come.
#[derive(Debug, Clone, Copy, PartialEq, Eq, Structural)]
pub struct TransferProgress {
    pub completed_bytes: Option<u64>,
    pub total_bytes: Option<u64>,
    pub percent: Option<u8>,
    pub observed_at: Timestamp,
}

/// `tailscale file cp --targets`.
pub fn taildrop_targets_command(path: &str, timeout_ms: u64) -> (r: LocalCommand)
    ensures
        is_command(r, path@, LocalOperation::TaildropTargets, seq!["file"@, "cp"@, "--targets"@], Some(timeout_ms),
            OutputMode::Collect, OutputMode::Collect, 4194304, 262144),
{
    let words = ["file", "cp", "--targets"];
    let r = command_with_words(path, LocalOperation::TaildropTargets, &words, Some(timeout_ms));
    proof {
        assert(words@.map_values(|w: &str| w@) =~= seq!["file"@, "cp"@, "--targets"@]);
    }
    r.with_modes(OutputMode::Collect, OutputMode::Collect)
}

pub open spec fn send_words(files: Seq<Seq<char>>, target: Seq<char>) -> Seq<Seq<char>> {
    seq!["file"@, "cp"@, "--update-interval=1s"@] + files + seq![target + ":"@]
}

/// `tailscale file cp` of the files to `target:`, progress read line by line.
pub fn taildrop_send_command(path: &str, timeout_ms: u64, files: &Vec<String>, target: &str) -> (r: Result<LocalCommand, TransferParseError>)
    ensures
        files@.len() == 0 ==> (r matches Err(e) && e.detail@ == "at least one file is required"@),
        files@.len() > 0 && (target@.len() == 0 || has_ctrl(target@)) ==> (r matches Err(e) && e.detail@ == "Taildrop target is invalid"@),
        files@.len() > 0 && !(target@.len() == 0 || has_ctrl(target@)) ==> (r matches Ok(c) && is_command(c, path@,
            LocalOperation::TaildropSend, send_words(files@.map_values(|f: String| f@), target@), Some(timeout_ms),
            OutputMode::Lines, OutputMode::Lines, 4194304, 262144)),
{
    if files.len() == 0 {
        return Err(transfer_error("at least one file is required"));
    }
    let tc = chars_of(target);
    if tc.len() == 0 || any_control(&tc) {
        return Err(transfer_error("Taildrop target is invalid"));
    }
    let mut args = owned_strings(&["file", "cp", "--update-interval=1s"]);
    let mut i: usize = 0;
    while i < files.len()
        invariant
            i <= files.len(),
            args@.len() == 3 + i,
            args_are(args@.take(3), seq!["file"@, "cp"@, "--update-interval=1s"@]),
            forall|k: int| 0 <= k < i ==> #[trigger] args@[3 + k]@ == files@[k]@,
        decreases files.len() - i,
    {
        let ghost before = args@;
        args.push(files[i].clone());
        proof {
            assert(args@.take(3) =~= before.take(3));
        }
        i = i + 1;
    }
    let mut last = chars_of(target);
    append_str(&mut last, ":");
    let ghost before = args@;
    args.push(string_from_chars(&last));
    proof {
        let words = send_words(files@.map_values(|f: String| f@), target@);
        let head = seq!["file"@, "cp"@, "--update-interval=1s"@];
        assert(words.len() == args@.len());
        assert forall|k: int| 0 <= k < words.len() implies #[trigger] args@[k]@ == words[k] by {
            if k < 3 {
                assert(before.take(3)[k] == args@[k]);
                assert(words[k] == head[k]);
            } else if k < 3 + files.len() {
                assert(before[3 + (k - 3)]@ == files@[k - 3]@);
                assert(words[k] == files@.map_values(|f: String| f@)[k - 3]);
            } else {
                assert(args@[k]@ == target@ + ":"@);
                assert(words[k] == target@ + ":"@);
            }
        }
    }
    Ok(LocalCommand::new(path.to_owned(), LocalOperation::TaildropSend, args)
        .with_timeout(timeout_ms)
        .with_modes(OutputMode::Lines, OutputMode::Lines))
}

/// `tailscale drive list`.
pub fn drive_list_command(path: &str, timeout_ms: u64) -> (r: LocalCommand)
    ensures
        is_command(r, path@, LocalOperation::TaildriveList, seq!["drive"@, "list"@], Some(timeout_ms),
            OutputMode::Collect, OutputMode::Collect, 4194304, 262144),
{
    let words = ["drive", "list"];
    let r = command_with_words(path, LocalOperation::TaildriveList, &words, Some(timeout_ms));
    proof {
        assert(words@.map_values(|w: &str| w@) =~= seq!["drive"@, "list"@]);
    }
    r
}

/// The first token that is a number of percent between 0 and 255; a value
/// over 100 counts as no percentage.
pub open spec fn percent_token(tokens: Seq<Seq<char>>) -> Option<u8>
    decreases tokens.len(),
{
    if tokens.len() == 0 {
        None
    } else {
        match strip_suffix(tokens[0], "%"@) {
            Some(v) => match parse_unsigned_spec(v, 255) {
                Some(p) => if p <= 100 { Some(p as u8) } else { None },
                None => percent_token(tokens.drop_first()),
            },
            None => percent_token(tokens.drop_first()),
        }
    }
}

/// The first token that holds a `/`.
pub open spec fn slash_token(tokens: Seq<Seq<char>>) -> Option<Seq<char>>
    decreases tokens.len(),
{
    if tokens.len() == 0 {
        None
    } else if tokens[0].contains('/') {
        Some(tokens[0])
    } else {
        slash_token(tokens.drop_first())
    }
}

/// `completed/total` in the first token that holds a `/`, when both read as numbers.
pub open spec fn byte_counts(tokens: Seq<Seq<char>>) -> Option<(u64, u64)> {
    match slash_token(tokens) {
        Some(t) => match find_first(t, "/"@) {
            Some(p) => match (parse_unsigned_spec(t.take(p), u64::MAX as nat), parse_unsigned_spec(t.skip(p + 1), u64::MAX as nat)) {
                (Some(c), Some(n)) => Some((c as u64, n as u64)),
                _ => None,
            },
            None => None,
        },
        None => None,
    }
}

fn find_percent(tokens: &Vec<Vec<char>>) -> (r: Option<u8>)
    ensures
        r == percent_token(tokens@.map_values(|t: Vec<char>| t@)),
{
    let ghost all = tokens@.map_values(|t: Vec<char>| t@);
    let mut i: usize = 0;
    proof {
        assert(all.skip(0) =~= all);
    }
    while i < tokens.len()
        invariant
            i <= tokens.len(),
            all == tokens@.map_values(|t: Vec<char>| t@),
            percent_token(all) == percent_token(all.skip(i as int)),
        decreases tokens.len() - i,
    {
        proof {
            assert(all.skip(i as int)[0] == tokens@[i as int]@);
            assert(all.skip(i as int).drop_first() =~= all.skip(i + 1));
        }
        if let Some(v) = strip_suffix_chars(&tokens[i], "%") {
            if let Some(p) = parse_unsigned(&v, 255) {
                if p <= 100 {
                    return Some(p as u8);
                } else {
                    return None;
                }
            }
        }
        i = i + 1;
    }
    None
}

fn find_byte_counts(tokens: &Vec<Vec<char>>) -> (r: Option<(u64, u64)>)
    ensures
        r == byte_counts(tokens@.map_values(|t: Vec<char>| t@)),
{
    let ghost all = tokens@.map_values(|t: Vec<char>| t@);
    let mut i: usize = 0;
    proof {
        assert(all.skip(0) =~= all);
    }
    while i < tokens.len()
        invariant
            i <= tokens.len(),
            all == tokens@.map_values(|t: Vec<char>| t@),
            slash_token(all) == slash_token(all.skip(i as int)),
        decreases tokens.len() - i,
    {
        proof {
            assert(all.skip(i as int)[0] == tokens@[i as int]@);
            assert(all.skip(i as int).drop_first() =~= all.skip(i + 1));
        }
        let t = &tokens[i];
        if has_char(t, '/') {
            let slash = chars_of("/");
            match find_chars(t, &slash) {
                Some(p) => {
                    proof {
                        reveal_strlit("/");
                        crate::text::lemma_find_from_bound(t@, slash@, 0);
                        assert(find_first(t@, slash@) == Some(p as int));
                        assert(slash@.len() == 1);
                        assert(p + 1 <= t@.len());
                    }
                    assert(p + 1 <= t.len());
                    let completed = slice_chars(t, 0, p);
                    let total = slice_chars(t, p + 1, t.len());
                    proof {
                        assert(completed@ =~= t@.take(p as int));
                        assert(total@ =~= t@.skip(p + 1));
                    }
                    let c = parse_unsigned(&completed, u64::MAX);
                    let n = parse_unsigned(&total, u64::MAX);
                    return match (c, n) {
                        (Some(c), Some(n)) => Some((c, n)),
                        _ => None,
                    };
                },
                None => {
                    return None;
                },
            }
        }
        i = i + 1;
    }
    None
}

/// What a progress line of `tailscale file cp` says, if it gives a
/// percentage or byte counts.
pub fn parse_taildrop_progress(line: &str, observed_at: Timestamp) -> (r: Option<TransferProgress>)
    ensures
        ({
            let tokens = tokens_of(trim(line@));
            let percent = percent_token(tokens);
            let bytes = byte_counts(tokens);
            &&& (percent.is_none() && bytes.is_none()) ==> r.is_none()
            &&& !(percent.is_none() && bytes.is_none()) ==> r == Some(TransferProgress {
                completed_bytes: match bytes { Some(b) => Some(b.0), None => None },
                total_bytes: match bytes { Some(b) => Some(b.1), None => None },
                percent,
                observed_at,
            })
        }),
{
    let chars = chars_of(line);
    let t = trim_chars(&chars);
    let tokens = split_whitespace(&t);
    proof {
        assert(tokens@.map_values(|v: Vec<char>| v@) =~= tokens_of(t@));
    }
    let percent = find_percent(&tokens);
    let bytes = find_byte_counts(&tokens);
    if percent.is_none() && bytes.is_none() {
        return None;
    }
    Some(TransferProgress {
        completed_bytes: match bytes { Some(b) => Some(b.0), None => None },
        total_bytes: match bytes { Some(b) => Some(b.1), None => None },
        percent,
        observed_at,
    })
}


/// A header line of the target list.
pub open spec fn is_target_header(line: Seq<char>) -> bool {
    let l = lower_seq(line);
    seq_contains(l, "target"@) && (seq_contains(l, "device"@) || seq_contains(l, "name"@))
}

/// A line (already without trailing white space) that names no target.
pub open spec fn skipped_target_line(l: Seq<char>) -> bool {
    trim(l).len() == 0 || is_target_header(l) || starts_with(l, "#"@)
}

/// The fields of a target line: tab-separated and trimmed, else separated
/// by white space.
pub open spec fn target_fields(l: Seq<char>) -> Seq<Seq<char>> {
    if l.contains('\t') {
        split_on(l, '\t').map_values(|f: Seq<char>| trim(f))
    } else {
        tokens_of(l)
    }
}

/// An online column: known words in any ASCII case.
pub open spec fn parse_online_spec(value: Seq<char>) -> Option<bool> {
    let l = lower_seq(value);
    if l == "online"@ || l == "yes"@ || l == "true"@ || l == "available"@ {
        Some(true)
    } else if l == "offline"@ || l == "no"@ || l == "false"@ || l == "unavailable"@ {
        Some(false)
    } else {
        None
    }
}

/// The target that line `number` (counted from one) describes.
pub open spec fn target_row(fields: Seq<Seq<char>>, number: nat) -> Result<TaildropTargetView, Seq<char>> {
    if fields.len() < 2 {
        Err("Taildrop target line "@ + decimal(number) + " does not contain stable target and display fields"@)
    } else if fields[0].len() == 0 || has_ctrl(fields[0]) {
        Err("Taildrop target is empty or invalid"@)
    } else if fields[1].len() == 0 {
        Err("Taildrop target display names must not be empty"@)
    } else {
        Ok(TaildropTargetView {
            command_target: fields[0],
            display_name: fields[1],
            device_name: if fields.len() > 2 && fields[2].len() > 0 { fields[2] } else { "not returned"@ },
            online: if fields.len() > 3 { parse_online_spec(fields[3]) } else { None },
            capability_reason: if fields.len() > 4 && fields[4].len() > 0 && !eq_ignore_case(fields[4], "available"@) {
                Some(fields[4])
            } else {
                None
            },
        })
    }
}

/// The targets of the first `n` lines, or the first error among them.
pub open spec fn target_rows(lines: Seq<Seq<char>>, n: nat) -> Result<Seq<TaildropTargetView>, Seq<char>>
    decreases n,
{
    if n == 0 {
        Ok(Seq::empty())
    } else {
        match target_rows(lines, (n - 1) as nat) {
            Err(e) => Err(e),
            Ok(rows) => {
                let l = trim_end(lines[n - 1]);
                if skipped_target_line(l) {
                    Ok(rows)
                } else {
                    match target_row(target_fields(l), n) {
                        Ok(t) => Ok(rows.push(t)),
                        Err(e) => Err(e),
                    }
                }
            },
        }
    }
}

/// Two targets share a command target.
pub open spec fn has_duplicate_targets(rows: Seq<TaildropTargetView>) -> bool {
    exists|a: int, b: int| 0 <= a < b < rows.len() && #[trigger] rows[a].command_target == #[trigger] rows[b].command_target
}

/// Strictly ascending by command target.
pub open spec fn sorted_by_target(v: Seq<TaildropTargetView>) -> bool {
    forall|a: int, b: int| 0 <= a < b < v.len() ==> chars_lt(#[trigger] v[a].command_target, #[trigger] v[b].command_target)
}

fn parse_online(value: &Vec<char>) -> (r: Option<bool>)
    ensures
        r == parse_online_spec(value@),
{
    let l = lowercase(value);
    if chars_eq_str(&l, "online") || chars_eq_str(&l, "yes") || chars_eq_str(&l, "true") || chars_eq_str(&l, "available") {
        Some(true)
    } else if chars_eq_str(&l, "offline") || chars_eq_str(&l, "no") || chars_eq_str(&l, "false") || chars_eq_str(&l, "unavailable") {
        Some(false)
    } else {
        None
    }
}

fn is_target_header_chars(l: &Vec<char>) -> (r: bool)
    ensures
        r == is_target_header(l@),
{
    let lower = lowercase(l);
    str_contains(&lower, "target") && (str_contains(&lower, "device") || str_contains(&lower, "name"))
}

fn fields_of(l: &Vec<char>) -> (r: Vec<Vec<char>>)
    ensures
        r@.map_values(|v: Vec<char>| v@) == target_fields(l@),
{
    if has_char(l, '\t') {
        let pieces = split_chars(l, '\t');
        let ghost pv = split_on(l@, '\t');
        let mut out: Vec<Vec<char>> = Vec::new();
        let mut i: usize = 0;
        while i < pieces.len()
            invariant
                i <= pieces.len(),
                pieces@.len() == pv.len(),
                forall|k: int| 0 <= k < pieces@.len() ==> #[trigger] pieces@[k]@ == pv[k],
                out@.map_values(|v: Vec<char>| v@) == pv.take(i as int).map_values(|f: Seq<char>| trim(f)),
            decreases pieces.len() - i,
        {
            let ghost before = out@.map_values(|v: Vec<char>| v@);
            out.push(trim_chars(&pieces[i]));
            proof {
                assert(pv.take(i + 1) =~= pv.take(i as int).push(pv[i as int]));
                assert(out@.map_values(|v: Vec<char>| v@) =~= before.push(trim(pv[i as int])));
                assert(out@.map_values(|v: Vec<char>| v@) =~= pv.take(i + 1).map_values(|f: Seq<char>| trim(f)));
            }
            i = i + 1;
        }
        proof {
            assert(pv.take(pieces.len() as int) =~= pv);
        }
        out
    } else {
        let r = split_whitespace(l);
        proof {
            assert(r@.map_values(|v: Vec<char>| v@) =~= tokens_of(l@));
        }
        r
    }
}

fn line_number_message(number: usize) -> (r: String)
    ensures
        r@ == "Taildrop target line "@ + decimal(number as nat) + " does not contain stable target and display fields"@,
{
    let mut v = chars_of("Taildrop target line ");
    let d = format_u64(number as u64);
    append_chars(&mut v, &d);
    append_str(&mut v, " does not contain stable target and display fields");
    string_from_chars(&v)
}

fn target_from_fields(fields: &Vec<Vec<char>>, number: usize) -> (r: Result<TaildropTarget, TransferParseError>)
    ensures
        match target_row(fields@.map_values(|v: Vec<char>| v@), number as nat) {
            Ok(t) => r matches Ok(x) && x@ == t,
            Err(m) => r matches Err(e) && e.detail@ == m,
        },
{
    let ghost fv = fields@.map_values(|v: Vec<char>| v@);
    if fields.len() < 2 {
        return Err(TransferParseError { detail: line_number_message(number) });
    }
    proof {
        assert(fv[0] == fields@[0]@);
        assert(fv[1] == fields@[1]@);
    }
    if fields[0].len() == 0 || any_control(&fields[0]) {
        return Err(transfer_error("Taildrop target is empty or invalid"));
    }
    if fields[1].len() == 0 {
        return Err(transfer_error("Taildrop target display names must not be empty"));
    }
    let device_name = if fields.len() > 2 && fields[2].len() > 0 {
        proof {
            assert(fv[2] == fields@[2]@);
        }
        string_from_chars(&fields[2])
    } else {
        "not returned".to_owned()
    };
    let online = if fields.len() > 3 {
        proof {
            assert(fv[3] == fields@[3]@);
        }
        parse_online(&fields[3])
    } else {
        None
    };
    let capability_reason = if fields.len() > 4 && fields[4].len() > 0 && !eq_ignore_ascii_case(&fields[4], &chars_of("available")) {
        proof {
            assert(fv[4] == fields@[4]@);
        }
        Some(string_from_chars(&fields[4]))
    } else {
        proof {
            if fields.len() > 4 {
                assert(fv[4] == fields@[4]@);
            }
        }
        None
    };
    Ok(TaildropTarget {
        command_target: string_from_chars(&fields[0]),
        display_name: string_from_chars(&fields[1]),
        device_name,
        online,
        capability_reason,
    })
}


/// The first error among the lines stays the answer for every longer prefix.
proof fn lemma_target_rows_error_stays(lines: Seq<Seq<char>>, n: nat, m: nat)
    requires
        n <= m,
        target_rows(lines, n) is Err,
    ensures
        target_rows(lines, m) == target_rows(lines, n),
    decreases m - n,
{
    if n < m {
        lemma_target_rows_error_stays(lines, n, (m - 1) as nat);
    }
}

fn collect_targets(input: &str) -> (r: Result<Vec<TaildropTarget>, TransferParseError>)
    ensures
        match target_rows(lines_of(input@), lines_of(input@).len()) {
            Ok(rows) => r matches Ok(v) && target_views(v@) == rows,
            Err(m) => r matches Err(e) && e.detail@ == m,
        },
{
    let chars = chars_of(input);
    let ls = lines(&chars);
    let ghost lv = lines_of(input@);
    let mut rows: Vec<TaildropTarget> = Vec::new();
    let mut i: usize = 0;
    proof {
        assert(target_views(rows@) =~= Seq::<TaildropTargetView>::empty());
    }
    while i < ls.len()
        invariant
            i <= ls.len(),
            ls@.len() == lv.len(),
            chars@ == input@,
            lv == lines_of(input@),
            forall|k: int| 0 <= k < ls@.len() ==> #[trigger] ls@[k]@ == lv[k],
            target_rows(lv, i as nat) == Ok::<Seq<TaildropTargetView>, Seq<char>>(target_views(rows@)),
        decreases ls.len() - i,
    {
        let l = trim_end_chars(&ls[i]);
        let tl = trim_chars(&l);
        let ghost before = target_views(rows@);
        if tl.len() == 0 || is_target_header_chars(&l) || starts_with_str(&l, "#") {
            i = i + 1;
            continue;
        }
        let fields = fields_of(&l);
        match target_from_fields(&fields, i + 1) {
            Ok(t) => {
                let ghost tv = t@;
                rows.push(t);
                proof {
                    assert(target_views(rows@) =~= before.push(tv));
                }
            },
            Err(e) => {
                proof {
                    lemma_target_rows_error_stays(lv, (i + 1) as nat, lv.len());
                }
                return Err(e);
            },
        }
        i = i + 1;
    }
    Ok(rows)
}


/// Inserting a target at the place its command target sorts keeps the list sorted.
proof fn lemma_insert_sorted(v: Seq<TaildropTargetView>, k: int, x: TaildropTargetView)
    requires
        0 <= k <= v.len(),
        sorted_by_target(v),
        forall|a: int| 0 <= a < k ==> chars_lt(#[trigger] v[a].command_target, x.command_target),
        k < v.len() ==> chars_lt(x.command_target, v[k].command_target),
    ensures
        sorted_by_target(v.insert(k, x)),
{
    let w = v.insert(k, x);
    assert forall|a: int, b: int| 0 <= a < b < w.len() implies chars_lt(#[trigger] w[a].command_target, #[trigger] w[b].command_target) by {
        if b < k {
            assert(w[a] == v[a] && w[b] == v[b]);
        } else if b == k {
            assert(w[a] == v[a] && w[b] == x);
        } else if a < k {
            assert(w[a] == v[a] && w[b] == v[b - 1]);
        } else if a == k {
            assert(w[a] == x && w[b] == v[b - 1]);
            if b - 1 > k {
                lemma_chars_lt_transitive(x.command_target, v[k].command_target, v[b - 1].command_target);
            }
        } else {
            assert(w[a] == v[a - 1] && w[b] == v[b - 1]);
        }
    }
}

fn copy_target(t: &TaildropTarget) -> (r: TaildropTarget)
    ensures
        r@ == t@,
{
    TaildropTarget {
        command_target: t.command_target.clone(),
        display_name: t.display_name.clone(),
        device_name: t.device_name.clone(),
        online: t.online,
        capability_reason: match &t.capability_reason {
            Some(c) => Some(c.clone()),
            None => None,
        },
    }
}

/// The targets in ascending order of command target; two with the same
/// command target are refused.
fn sort_targets(rows: &Vec<TaildropTarget>) -> (r: Result<Vec<TaildropTarget>, TransferParseError>)
    ensures
        ({
            let rv = target_views(rows@);
            &&& has_duplicate_targets(rv) ==> (r matches Err(e)
                && e.detail@ == "Taildrop target output contains duplicate command targets"@)
            &&& !has_duplicate_targets(rv) ==> (r matches Ok(v) && ({
                let ov = target_views(v@);
                &&& sorted_by_target(ov)
                &&& ov.len() == rv.len()
                &&& forall|a: int| 0 <= a < ov.len() ==> rv.contains(#[trigger] ov[a])
                &&& forall|j: int| 0 <= j < rv.len() ==> ov.contains(#[trigger] rv[j])
            }))
        }),
{
    let ghost rv = target_views(rows@);
    let mut out: Vec<TaildropTarget> = Vec::new();
    let mut i: usize = 0;
    proof {
        assert(rv.take(0) =~= Seq::<TaildropTargetView>::empty());
    }
    while i < rows.len()
        invariant
            i <= rows.len(),
            rv == target_views(rows@),
            out@.len() == i,
            sorted_by_target(target_views(out@)),
            forall|a: int| 0 <= a < i ==> rv.take(i as int).contains(#[trigger] target_views(out@)[a]),
            forall|j: int| 0 <= j < i ==> target_views(out@).contains(#[trigger] rv[j]),
            !has_duplicate_targets(rv.take(i as int)),
        decreases rows.len() - i,
    {
        let ghost ov = target_views(out@);
        let ghost x = rv[i as int];
        let key = chars_of(rows[i].command_target.as_str());
        let mut k: usize = 0;
        while k < out.len()
            invariant
                k <= out.len(),
                out@.len() == i,
                ov == target_views(out@),
                key@ == x.command_target,
                x == rv[i as int],
                rv == target_views(rows@),
                i < rows.len(),
                forall|a: int| 0 <= a < i ==> rv.take(i as int).contains(#[trigger] ov[a]),
                forall|a: int| 0 <= a < k ==> chars_lt(#[trigger] ov[a].command_target, x.command_target),
            ensures
                forall|a: int| 0 <= a < k ==> chars_lt(#[trigger] ov[a].command_target, x.command_target),
                k < out.len() ==> chars_lt(x.command_target, ov[k as int].command_target),
                k <= out.len(),
            decreases out.len() - k,
        {
            let other = chars_of(out[k].command_target.as_str());
            proof {
                assert(other@ == ov[k as int].command_target);
            }
            if crate::text::chars_eq(&key, &other) {
                proof {
                    assert(rv.take(i as int).contains(ov[k as int]));
                    let j = choose|j: int| 0 <= j < rv.take(i as int).len() && rv.take(i as int)[j] == ov[k as int];
                    assert(rv[j].command_target == rv[i as int].command_target);
                    assert(has_duplicate_targets(rv));
                }
                return Err(transfer_error("Taildrop target output contains duplicate command targets"));
            }
            if chars_less(&key, &other) {
                break;
            }
            proof {
                lemma_chars_lt_total(key@, other@);
            }
            k = k + 1;
        }
        proof {
            assert forall|a: int| 0 <= a < ov.len() implies #[trigger] ov[a].command_target != x.command_target by {
                if a < k {
                    lemma_chars_lt_irreflexive(x.command_target);
                } else {
                    if a > k {
                        lemma_chars_lt_transitive(x.command_target, ov[k as int].command_target, ov[a].command_target);
                    }
                    lemma_chars_lt_irreflexive(x.command_target);
                }
            }
            assert(!has_duplicate_targets(rv.take(i + 1))) by {
                if has_duplicate_targets(rv.take(i + 1)) {
                    let (a, b) = choose|a: int, b: int| 0 <= a < b < rv.take(i + 1).len()
                        && #[trigger] rv.take(i + 1)[a].command_target == #[trigger] rv.take(i + 1)[b].command_target;
                    if b < i {
                        assert(rv.take(i as int)[a] == rv.take(i + 1)[a]);
                        assert(rv.take(i as int)[b] == rv.take(i + 1)[b]);
                        assert(has_duplicate_targets(rv.take(i as int)));
                    } else {
                        assert(target_views(out@).contains(rv[a]));
                        let c = choose|c: int| 0 <= c < ov.len() && ov[c] == rv[a];
                        assert(ov[c].command_target != x.command_target);
                    }
                }
            }
            lemma_insert_sorted(ov, k as int, x);
        }
        let copy = copy_target(&rows[i]);
        out.insert(k, copy);
        proof {
            let nv = target_views(out@);
            assert(nv =~= ov.insert(k as int, x));
            assert forall|a: int| 0 <= a < i + 1 implies rv.take(i + 1).contains(#[trigger] nv[a]) by {
                if a < k {
                    assert(nv[a] == ov[a]);
                    let j = choose|j: int| 0 <= j < rv.take(i as int).len() && rv.take(i as int)[j] == ov[a];
                    assert(rv.take(i + 1)[j] == ov[a]);
                } else if a == k {
                    assert(rv.take(i + 1)[i as int] == x);
                } else {
                    assert(nv[a] == ov[a - 1]);
                    let j = choose|j: int| 0 <= j < rv.take(i as int).len() && rv.take(i as int)[j] == ov[a - 1];
                    assert(rv.take(i + 1)[j] == ov[a - 1]);
                }
            }
            assert forall|j: int| 0 <= j < i + 1 implies nv.contains(#[trigger] rv[j]) by {
                if j == i {
                    assert(nv[k as int] == x);
                } else {
                    assert(ov.contains(rv[j]));
                    let c = choose|c: int| 0 <= c < ov.len() && ov[c] == rv[j];
                    if c < k {
                        assert(nv[c] == ov[c]);
                    } else {
                        assert(nv[c + 1] == ov[c]);
                    }
                }
            }
        }
        i = i + 1;
    }
    proof {
        assert(rv.take(rows.len() as int) =~= rv);
    }
    Ok(out)
}

/// The output of `tailscale file cp --targets`, read line by line (headers,
/// comments and blank lines skipped) and ordered by command target.
pub fn parse_taildrop_targets(input: &str) -> (r: Result<Vec<TaildropTarget>, TransferParseError>)
    ensures
        match target_rows(lines_of(input@), lines_of(input@).len()) {
            Err(m) => r matches Err(e) && e.detail@ == m,
            Ok(rows) => {
                &&& has_duplicate_targets(rows) ==> (r matches Err(e)
                    && e.detail@ == "Taildrop target output contains duplicate command targets"@)
                &&& !has_duplicate_targets(rows) ==> (r matches Ok(v) && ({
                    let ov = target_views(v@);
                    &&& sorted_by_target(ov)
                    &&& ov.len() == rows.len()
                    &&& forall|a: int| 0 <= a < ov.len() ==> rows.contains(#[trigger] ov[a])
                    &&& forall|j: int| 0 <= j < rows.len() ==> ov.contains(#[trigger] rows[j])
                }))
            },
        },
{
    let rows = collect_targets(input)?;
    sort_targets(&rows)
}


/// A Taildrive share.
#[derive(Debug, Clone, PartialEq, Eq)]
pub struct TaildriveShare {
    pub name: String,
    pub path: String,
    pub as_user: Option<String>,
}

pub ghost struct TaildriveShareView {
    pub name: Seq<char>,
    pub path: Seq<char>,
    pub as_user: Option<Seq<char>>,
}

impl View for TaildriveShare {
    type V = TaildriveShareView;

    open spec fn view(&self) -> TaildriveShareView {
        TaildriveShareView { name: self.name@, path: self.path@, as_user: crate::domain::opt_view(self.as_user) }
    }
}

pub open spec fn share_views(v: Seq<TaildriveShare>) -> Seq<TaildriveShareView> {
    v.map_values(|s: TaildriveShare| s@)
}

/// The character index at which `byte` bytes of `s` end, searching from `i`.
pub open spec fn boundary_from(s: Seq<char>, byte: nat, i: int) -> Option<int>
    decreases s.len() + 1 - i,
{
    if i < 0 || i > s.len() {
        None
    } else if byte_len(s.take(i)) == byte {
        Some(i)
    } else if byte_len(s.take(i)) > byte {
        None
    } else {
        boundary_from(s, byte, i + 1)
    }
}

/// What `str::get(a..b)` gives: the characters between two byte offsets
/// that fall on character boundaries, in order.
pub open spec fn byte_slice(s: Seq<char>, a: nat, b: nat) -> Option<Seq<char>> {
    if a > b {
        None
    } else {
        match (boundary_from(s, a, 0), boundary_from(s, b, 0)) {
            (Some(i), Some(j)) => Some(s.subrange(i, j)),
            _ => None,
        }
    }
}

/// The byte offset of the first occurrence of each token in the header.
pub open spec fn starts_of(header: Seq<char>, tokens: Seq<Seq<char>>) -> Seq<nat>
    decreases tokens.len(),
{
    if tokens.len() == 0 {
        Seq::empty()
    } else {
        let rest = starts_of(header, tokens.drop_last());
        match find_first(header, tokens.last()) {
            Some(p) => rest.push(byte_len(header.take(p))),
            None => rest,
        }
    }
}

/// The column under each start of the header, trimmed; a column whose
/// offsets do not fall on character boundaries of the line is empty.
pub open spec fn column_fields(line: Seq<char>, starts: Seq<nat>) -> Seq<Seq<char>> {
    Seq::new(starts.len(), |k: int| {
        let end = if k + 1 < starts.len() { starts[k + 1] } else { byte_len(line) };
        match byte_slice(line, starts[k], end) {
            Some(x) => trim(x),
            None => Seq::empty(),
        }
    })
}

pub open spec fn has_drive_header(line: Seq<char>) -> bool {
    let l = lower_seq(line);
    seq_contains(l, "name"@) && seq_contains(l, "path"@)
}

/// The first line that is a header.
pub open spec fn header_index_from(lines: Seq<Seq<char>>, i: int) -> Option<int>
    decreases lines.len() - i,
{
    if i < 0 || i >= lines.len() {
        None
    } else if has_drive_header(lines[i]) {
        Some(i)
    } else {
        header_index_from(lines, i + 1)
    }
}

pub open spec fn skipped_share_line(line: Seq<char>) -> bool {
    trim(line).len() == 0 || starts_with(crate::text::trim_start(line), "-"@)
}

pub open spec fn share_fields(line: Seq<char>, starts: Seq<nat>) -> Seq<Seq<char>> {
    if line.contains('\t') {
        split_on(line, '\t').map_values(|f: Seq<char>| trim(f))
    } else {
        column_fields(line, starts)
    }
}

pub open spec fn share_row(fields: Seq<Seq<char>>) -> Option<TaildriveShareView> {
    if fields.len() < 2 || fields[0].len() == 0 || fields[1].len() == 0 {
        None
    } else {
        Some(TaildriveShareView {
            name: fields[0],
            path: fields[1],
            as_user: if fields.len() > 2 && fields[2].len() > 0 { Some(fields[2]) } else { None },
        })
    }
}

/// The shares of the rows of `rows`, or none where a row lacks a name or path.
pub open spec fn share_rows(rows: Seq<Seq<char>>, starts: Seq<nat>) -> Option<Seq<TaildriveShareView>>
    decreases rows.len(),
{
    if rows.len() == 0 {
        Some(Seq::empty())
    } else {
        match share_rows(rows.drop_last(), starts) {
            None => None,
            Some(done) => if skipped_share_line(rows.last()) {
                Some(done)
            } else {
                match share_row(share_fields(rows.last(), starts)) {
                    Some(x) => Some(done.push(x)),
                    None => None,
                }
            },
        }
    }
}

/// What `parse_drive_list` makes of the output, as plain values.
pub open spec fn drive_list_spec(input: Seq<char>) -> Result<Seq<TaildriveShareView>, Seq<char>> {
    if trim(input).len() == 0 {
        Ok(Seq::empty())
    } else {
        let lines = lines_of(input);
        match header_index_from(lines, 0) {
            None => Err("Taildrive list header was not recognized"@),
            Some(h) => {
                let starts = starts_of(lines[h], tokens_of(lines[h]));
                if starts.len() < 2 {
                    Err("Taildrive list requires NAME and PATH columns"@)
                } else {
                    match share_rows(lines.skip(h + 1), starts) {
                        Some(shares) => Ok(shares),
                        None => Err("Taildrive list row does not contain a name and path"@),
                    }
                }
            },
        }
    }
}

/// The byte offset at which each character of `s` starts, and the length.
fn byte_offsets(s: &Vec<char>) -> (r: Vec<usize>)
    requires
        byte_len(s@) <= usize::MAX,
    ensures
        r@.len() == s@.len() + 1,
        forall|i: int| 0 <= i <= s@.len() ==> #[trigger] r@[i] as nat == byte_len(s@.take(i)),
{
    let mut out: Vec<usize> = Vec::new();
    out.push(0);
    let mut total: usize = 0;
    let mut i: usize = 0;
    proof {
        assert(s@.take(0) =~= Seq::<char>::empty());
    }
    while i < s.len()
        invariant
            i <= s@.len(),
            byte_len(s@) <= usize::MAX,
            out@.len() == i + 1,
            total as nat == byte_len(s@.take(i as int)),
            forall|k: int| 0 <= k <= i ==> #[trigger] out@[k] as nat == byte_len(s@.take(k)),
        decreases s.len() - i,
    {
        proof {
            assert(s@.take(i + 1).drop_last() =~= s@.take(i as int));
            lemma_byte_len_prefix_monotone(s@, i + 1);
        }
        let w = char_utf8_len(s[i]);
        total = total + w;
        out.push(total);
        i = i + 1;
    }
    out
}

proof fn lemma_byte_len_strict(s: Seq<char>, i: int, j: int)
    requires
        0 <= i < j <= s.len(),
    ensures
        byte_len(s.take(i)) < byte_len(s.take(j)),
    decreases j - i,
{
    assert(s.take(j).drop_last() =~= s.take(j - 1));
    if i < j - 1 {
        lemma_byte_len_strict(s, i, j - 1);
    }
}

/// The character index where `byte` bytes end, using the offsets.
fn find_boundary(s: &Vec<char>, offsets: &Vec<usize>, byte: usize) -> (r: Option<usize>)
    requires
        offsets@.len() == s@.len() + 1,
        forall|i: int| 0 <= i <= s@.len() ==> #[trigger] offsets@[i] as nat == byte_len(s@.take(i)),
    ensures
        match r {
            Some(i) => boundary_from(s@, byte as nat, 0) == Some(i as int),
            None => boundary_from(s@, byte as nat, 0).is_none(),
        },
{
    let mut i: usize = 0;
    while i < offsets.len()
        invariant
            i <= offsets@.len(),
            offsets@.len() == s@.len() + 1,
            forall|k: int| 0 <= k <= s@.len() ==> #[trigger] offsets@[k] as nat == byte_len(s@.take(k)),
            boundary_from(s@, byte as nat, 0) == boundary_from(s@, byte as nat, i as int),
        decreases offsets.len() - i,
    {
        let o = offsets[i];
        if o == byte {
            return Some(i);
        }
        if o > byte {
            return None;
        }
        i = i + 1;
    }
    proof {
        assert(boundary_from(s@, byte as nat, i as int).is_none());
    }
    None
}

fn slice_bytes(s: &Vec<char>, offsets: &Vec<usize>, a: usize, b: usize) -> (r: Option<Vec<char>>)
    requires
        offsets@.len() == s@.len() + 1,
        forall|i: int| 0 <= i <= s@.len() ==> #[trigger] offsets@[i] as nat == byte_len(s@.take(i)),
    ensures
        match r {
            Some(v) => byte_slice(s@, a as nat, b as nat) == Some(v@),
            None => byte_slice(s@, a as nat, b as nat).is_none(),
        },
{
    if a > b {
        return None;
    }
    let i = find_boundary(s, offsets, a);
    let j = find_boundary(s, offsets, b);
    match (i, j) {
        (Some(i), Some(j)) => {
            proof {
                lemma_boundary_from_facts(s@, a as nat, 0);
                lemma_boundary_from_facts(s@, b as nat, 0);
                if j < i {
                    lemma_byte_len_strict(s@, j as int, i as int);
                }
            }
            Some(slice_chars(s, i, j))
        },
        _ => None,
    }
}

proof fn lemma_boundary_from_facts(s: Seq<char>, byte: nat, i: int)
    ensures
        boundary_from(s, byte, i) matches Some(k) ==> i <= k <= s.len() && byte_len(s.take(k)) == byte,
    decreases s.len() + 1 - i,
{
    if i < 0 || i > s.len() {
    } else if byte_len(s.take(i)) == byte {
    } else if byte_len(s.take(i)) > byte {
    } else {
        lemma_boundary_from_facts(s, byte, i + 1);
    }
}


fn column_starts(header: &Vec<char>) -> (r: Vec<usize>)
    requires
        byte_len(header@) <= usize::MAX,
    ensures
        r@.map_values(|x: usize| x as nat) == starts_of(header@, tokens_of(header@)),
{
    let tokens = split_whitespace(header);
    let ghost tv = tokens_of(header@);
    proof {
        assert(tokens@.map_values(|v: Vec<char>| v@) =~= tv);
    }
    let offsets = byte_offsets(header);
    let mut out: Vec<usize> = Vec::new();
    let mut i: usize = 0;
    proof {
        assert(tv.take(0) =~= Seq::<Seq<char>>::empty());
        assert(out@.map_values(|x: usize| x as nat) =~= Seq::<nat>::empty());
    }
    while i < tokens.len()
        invariant
            i <= tokens@.len(),
            tokens@.len() == tv.len(),
            forall|k: int| 0 <= k < tokens@.len() ==> #[trigger] tokens@[k]@ == tv[k],
            offsets@.len() == header@.len() + 1,
            forall|k: int| 0 <= k <= header@.len() ==> #[trigger] offsets@[k] as nat == byte_len(header@.take(k)),
            out@.map_values(|x: usize| x as nat) == starts_of(header@, tv.take(i as int)),
        decreases tokens.len() - i,
    {
        proof {
            assert(tv.take(i + 1).drop_last() =~= tv.take(i as int));
            assert(tv.take(i + 1).last() == tokens@[i as int]@);
        }
        let ghost before = out@.map_values(|x: usize| x as nat);
        match find_chars(header, &tokens[i]) {
            Some(p) => {
                proof {
                    crate::text::lemma_find_from_bound(header@, tokens@[i as int]@, 0);
                }
                let b = offsets[p];
                out.push(b);
                proof {
                    assert(out@.map_values(|x: usize| x as nat) =~= before.push(byte_len(header@.take(p as int))));
                }
            },
            None => {},
        }
        i = i + 1;
    }
    proof {
        assert(tv.take(tokens@.len() as int) =~= tv);
    }
    out
}

fn slice_columns(line: &Vec<char>, starts: &Vec<usize>) -> (r: Vec<Vec<char>>)
    requires
        byte_len(line@) <= usize::MAX,
    ensures
        r@.map_values(|v: Vec<char>| v@) == column_fields(line@, starts@.map_values(|x: usize| x as nat)),
{
    let ghost sv = starts@.map_values(|x: usize| x as nat);
    let offsets = byte_offsets(line);
    proof {
        assert(line@.take(line@.len() as int) =~= line@);
    }
    let total = offsets[line.len()];
    let mut out: Vec<Vec<char>> = Vec::new();
    let mut k: usize = 0;
    while k < starts.len()
        invariant
            k <= starts@.len(),
            sv == starts@.map_values(|x: usize| x as nat),
            offsets@.len() == line@.len() + 1,
            forall|i: int| 0 <= i <= line@.len() ==> #[trigger] offsets@[i] as nat == byte_len(line@.take(i)),
            total as nat == byte_len(line@),
            out@.len() == k,
            forall|j: int| 0 <= j < k ==> #[trigger] out@[j]@ == column_fields(line@, sv)[j],
        decreases starts.len() - k,
    {
        proof {
            assert(line@.take(line@.len() as int) =~= line@);
        }
        let end = if k + 1 < starts.len() { starts[k + 1] } else { total };
        let piece = match slice_bytes(line, &offsets, starts[k], end) {
            Some(x) => trim_chars(&x),
            None => Vec::new(),
        };
        proof {
            assert(piece@ == column_fields(line@, sv)[k as int]);
        }
        out.push(piece);
        k = k + 1;
    }
    proof {
        assert(out@.map_values(|v: Vec<char>| v@) =~= column_fields(line@, sv));
    }
    out
}

fn has_drive_header_chars(line: &Vec<char>) -> (r: bool)
    ensures
        r == has_drive_header(line@),
{
    let l = lowercase(line);
    str_contains(&l, "name") && str_contains(&l, "path")
}

/// The output of `tailscale drive list`: the table after its header, read
/// by tab-separated fields or by the header's columns.
pub fn parse_drive_list(input: &str) -> (r: Result<Vec<TaildriveShare>, TransferParseError>)
    requires
        forall|k: int| 0 <= k < lines_of(input@).len() ==> byte_len(#[trigger] lines_of(input@)[k]) <= usize::MAX,
    ensures
        match drive_list_spec(input@) {
            Ok(shares) => r matches Ok(v) && share_views(v@) == shares,
            Err(m) => r matches Err(e) && e.detail@ == m,
        },
{
    let chars = chars_of(input);
    let t = trim_chars(&chars);
    if t.len() == 0 {
        let empty: Vec<TaildriveShare> = Vec::new();
        proof {
            assert(share_views(empty@) =~= Seq::<TaildriveShareView>::empty());
        }
        return Ok(empty);
    }
    let ls = lines(&chars);
    let ghost lv = lines_of(input@);
    let mut h: usize = 0;
    proof {
        assert(header_index_from(lv, 0) == header_index_from(lv, h as int));
    }
    while h < ls.len() && !has_drive_header_chars(&ls[h])
        invariant
            h <= ls@.len(),
            ls@.len() == lv.len(),
            forall|k: int| 0 <= k < ls@.len() ==> #[trigger] ls@[k]@ == lv[k],
            header_index_from(lv, 0) == header_index_from(lv, h as int),
        decreases ls.len() - h,
    {
        h = h + 1;
    }
    if h == ls.len() {
        return Err(transfer_error("Taildrive list header was not recognized"));
    }
    proof {
        assert(byte_len(lv[h as int]) <= usize::MAX);
    }
    let starts = column_starts(&ls[h]);
    if starts.len() < 2 {
        proof {
            assert(starts@.map_values(|x: usize| x as nat).len() == starts@.len());
        }
        return Err(transfer_error("Taildrive list requires NAME and PATH columns"));
    }
    let ghost sv = starts@.map_values(|x: usize| x as nat);
    let ghost rows = lv.skip(h + 1);
    proof {
        assert(header_index_from(lv, h as int) == Some(h as int));
        assert(t@ == trim(input@));
    }
    let mut shares: Vec<TaildriveShare> = Vec::new();
    let mut i: usize = h + 1;
    proof {
        assert(rows.take(0) =~= Seq::<Seq<char>>::empty());
        assert(share_views(shares@) =~= Seq::<TaildriveShareView>::empty());
    }
    while i < ls.len()
        invariant
            h + 1 <= i <= ls@.len(),
            ls@.len() == lv.len(),
            lv == lines_of(input@),
            forall|k: int| 0 <= k < lv.len() ==> byte_len(#[trigger] lv[k]) <= usize::MAX,
            forall|k: int| 0 <= k < ls@.len() ==> #[trigger] ls@[k]@ == lv[k],
            rows == lv.skip(h + 1),
            sv == starts@.map_values(|x: usize| x as nat),
            trim(input@).len() > 0,
            header_index_from(lv, 0) == Some(h as int),
            sv == starts_of(lv[h as int], tokens_of(lv[h as int])),
            sv.len() >= 2,
            share_rows(rows.take(i - h - 1), sv) == Some(share_views(shares@)),
        decreases ls.len() - i,
    {
        let ghost done = share_views(shares@);
        proof {
            assert(rows.take(i - h).drop_last() =~= rows.take(i - h - 1));
            assert(rows.take(i - h).last() == lv[i as int]);
            assert(byte_len(lv[i as int]) <= usize::MAX);
        }
        let line = &ls[i];
        let tl = trim_chars(line);
        let ts = crate::text::trim_start_chars(line);
        if tl.len() == 0 || starts_with_str(&ts, "-") {
            i = i + 1;
            continue;
        }
        let fields = if has_char(line, '\t') {
            fields_of(line)
        } else {
            slice_columns(line, &starts)
        };
        proof {
            assert(fields@.map_values(|v: Vec<char>| v@) == share_fields(lv[i as int], sv));
        }
        let ghost fv = fields@.map_values(|v: Vec<char>| v@);
        if fields.len() < 2 || fields[0].len() == 0 || fields[1].len() == 0 {
            proof {
                if fields.len() >= 2 {
                    assert(fv[0] == fields@[0]@ && fv[1] == fields@[1]@);
                }
                lemma_share_rows_none_stays(rows, sv, (i - h) as int);
                assert(rows.take(rows.len() as int) =~= rows);
            }
            return Err(transfer_error("Taildrive list row does not contain a name and path"));
        }
        proof {
            assert(fv[0] == fields@[0]@ && fv[1] == fields@[1]@);
            if fields.len() > 2 {
                assert(fv[2] == fields@[2]@);
            }
        }
        let as_user = if fields.len() > 2 && fields[2].len() > 0 {
            Some(string_from_chars(&fields[2]))
        } else {
            None
        };
        let share = TaildriveShare { name: string_from_chars(&fields[0]), path: string_from_chars(&fields[1]), as_user };
        let ghost x = share@;
        shares.push(share);
        proof {
            assert(share_views(shares@) =~= done.push(x));
        }
        i = i + 1;
    }
    proof {
        assert(rows.take(ls.len() - h - 1) =~= rows);
    }
    Ok(shares)
}

/// Once a row fails, the table fails.
proof fn lemma_share_rows_none_stays(rows: Seq<Seq<char>>, starts: Seq<nat>, n: int)
    requires
        0 <= n <= rows.len(),
        share_rows(rows.take(n), starts).is_none(),
    ensures
        share_rows(rows.take(rows.len() as int), starts).is_none(),
    decreases rows.len() - n,
{
    if n < rows.len() {
        assert(rows.take(n + 1).drop_last() =~= rows.take(n));
        lemma_share_rows_none_stays(rows, starts, n + 1);
    }
}

/// What `tailscale file get` does with a received file whose name is taken.
#[derive(Debug, Clone, Copy, PartialEq, Eq, Structural)]
pub enum TaildropConflict {
    Skip,
    Overwrite,
    Rename,
}

impl TaildropConflict {
    pub open spec fn label_spec(self) -> Seq<char> {
        match self {
            TaildropConflict::Skip => "skip"@,
            TaildropConflict::Overwrite => "overwrite"@,
            TaildropConflict::Rename => "rename"@,
        }
    }

    /// The value of `--conflict` that chooses it.
    pub fn label(self) -> (r: &'static str)
        ensures
            r@ == self.label_spec(),
    {
        match self {
            TaildropConflict::Skip => "skip",
            TaildropConflict::Overwrite => "overwrite",
            TaildropConflict::Rename => "rename",
        }
    }
}

/// The words of `tailscale file get`: the conflict rule, `--wait` where
/// asked, and the directory.
pub open spec fn receive_words(directory: Seq<char>, conflict: TaildropConflict, wait: bool) -> Seq<Seq<char>> {
    seq!["file"@, "get"@, "--conflict="@ + conflict.label_spec()] + (if wait {
        seq!["--wait"@]
    } else {
        Seq::<Seq<char>>::empty()
    }) + seq![directory]
}

/// `tailscale file get` into `directory`, progress read line by line. An
/// empty directory, or `-` (standard output), is refused.
pub fn taildrop_receive_command(
    path: &str,
    timeout_ms: u64,
    directory: &str,
    conflict: TaildropConflict,
    wait: bool,
) -> (r: Result<LocalCommand, TransferParseError>)
    ensures
        directory@.len() == 0 || directory@ == "-"@ ==> (r matches Err(e) && e.detail@ == "receive directory is invalid"@),
        !(directory@.len() == 0 || directory@ == "-"@) ==> (r matches Ok(c) && is_command(c, path@,
            LocalOperation::TaildropReceive, receive_words(directory@, conflict, wait), Some(timeout_ms),
            OutputMode::Lines, OutputMode::Lines, 4194304, 262144)),
{
    let d = chars_of(directory);
    if d.len() == 0 || chars_eq_str(&d, "-") {
        return Err(transfer_error("receive directory is invalid"));
    }
    let mut flag = chars_of("--conflict=");
    append_str(&mut flag, conflict.label());
    let mut args: Vec<String> = Vec::new();
    args.push("file".to_owned());
    args.push("get".to_owned());
    args.push(string_from_chars(&flag));
    if wait {
        args.push("--wait".to_owned());
    }
    args.push(directory.to_owned());
    proof {
        let words = receive_words(directory@, conflict, wait);
        assert(words.len() == args@.len());
        assert forall|k: int| 0 <= k < words.len() implies #[trigger] args@[k]@ == words[k] by {
        }
    }
    Ok(LocalCommand::new(path.to_owned(), LocalOperation::TaildropReceive, args).with_timeout(timeout_ms).with_modes(
        OutputMode::Lines,
        OutputMode::Lines,
    ))
}

/// A target row is read field by field: it is refused when it has fewer than
/// two fields, an empty or unprintable first field, or an empty second one;
/// otherwise the first field is the name to send to, the second the display
/// name, the third the device name (`not returned` when it is missing or
/// empty), the fourth the online state, and the fifth a reason the target
/// cannot receive, unless it is empty or says `available`.
pub proof fn target_rows_read_field_by_field(fields: Seq<Seq<char>>, number: nat)
    ensures
        target_row(fields, number) is Ok <==> (fields.len() >= 2 && fields[0].len() > 0 && !has_ctrl(fields[0])
            && fields[1].len() > 0),
        target_row(fields, number) matches Ok(t) ==> {
            &&& t.command_target == fields[0]
            &&& t.display_name == fields[1]
            &&& (fields.len() > 2 && fields[2].len() > 0 ==> t.device_name == fields[2])
            &&& (!(fields.len() > 2 && fields[2].len() > 0) ==> t.device_name == "not returned"@)
            &&& (fields.len() > 3 ==> t.online == parse_online_spec(fields[3]))
            &&& (fields.len() <= 3 ==> t.online is None)
            &&& (fields.len() > 4 && fields[4].len() > 0 && !eq_ignore_case(fields[4], "available"@)
                ==> t.capability_reason == Some(fields[4]))
            &&& (!(fields.len() > 4 && fields[4].len() > 0 && !eq_ignore_case(fields[4], "available"@))
                ==> t.capability_reason is None)
        },
{
}

} // verus!

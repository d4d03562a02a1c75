//! The output of a streaming diagnostic (`ping`, `netcheck`), read line by
//! line: each line updates what has been gathered and may report progress.
use vstd::prelude::*;
use vstd::utf8::{decode_utf8 as utf8_text, valid_utf8};

use crate::domain::{opt_view, NetcheckObservation, PingSample, Timestamp};
use crate::json::JsonValue;
use crate::local::client::views;
use crate::local::diagnostics::{
    is_ping_reply, netcheck_matches, parse_netcheck_json, parse_ping_line, ping_sample_matches,
    DiagnosticRequest,
};
use crate::local::process::{decode_utf8, stream_label, OutputStream, ProcessLine};
use crate::task::{append_bounded, bounded_detail_spec, joined_detail, saturating_plus, Progress, DETAIL_CAP};
use crate::text::{chars_of, strip_end_in, strip_end_matching, string_from_chars};

verus! {

/// What a streaming diagnostic has gathered so far.
#[derive(Debug)]
pub struct StreamAccumulator {
    pub ping_samples: Vec<PingSample>,
    pub netcheck_lines: Vec<String>,
    pub detail: String,
    pub sequence: u64,
}

/// What one line reports back while the diagnostic runs.
#[derive(Debug)]
pub struct StreamProgress {
    pub progress: Progress,
    pub detail: String,
    pub sample: Option<PingSample>,
    pub netcheck: Option<NetcheckObservation>,
}

impl StreamAccumulator {
    /// Nothing gathered yet.
    pub fn new() -> (r: StreamAccumulator)
        ensures
            r.ping_samples@.len() == 0,
            r.netcheck_lines@.len() == 0,
            r.detail@.len() == 0,
            r.sequence == 0,
    {
        StreamAccumulator { ping_samples: Vec::new(), netcheck_lines: Vec::new(), detail: String::new(), sequence: 0 }
    }
}

/// The text of an output line: its UTF-8 decoding without trailing line breaks.
pub open spec fn line_text(bytes: Seq<u8>) -> Seq<char> {
    strip_end_in(utf8_text(bytes), seq!['\r', '\n'])
}

/// The text of an output line, or `None` when it is not UTF-8.
pub fn stream_line_text(bytes: &[u8]) -> (r: Option<String>)
    ensures
        valid_utf8(bytes@) ==> (r matches Some(t) && t@ == line_text(bytes@)),
        !valid_utf8(bytes@) ==> r is None,
{
    match decode_utf8(bytes) {
        Ok(text) => {
            let c = chars_of(text);
            let set = ['\r', '\n'];
            proof {
                assert(set@ =~= seq!['\r', '\n']);
            }
            let t = strip_end_matching(&c, &set);
            Some(string_from_chars(&t))
        },
        Err(_) => None,
    }
}

/// Ping progress: the samples so far out of ten, stopping at ten, and at the
/// largest `u16` where there are more samples than a `u16` counts.
pub open spec fn ping_completed(count: nat) -> u16 {
    if count > u16::MAX {
        u16::MAX
    } else if count < 10 {
        count as u16
    } else {
        10
    }
}

/// Netcheck progress: the lines so far, stopping at the largest `u16`.
pub open spec fn netcheck_completed(count: nat) -> u16 {
    if count > u16::MAX {
        u16::MAX
    } else {
        count as u16
    }
}

/// A detail with one more line, kept within the task detail limit.
pub open spec fn with_line(detail: Seq<char>, line: Seq<char>) -> Seq<char> {
    bounded_detail_spec(joined_detail(detail, line), DETAIL_CAP as nat)
}

fn copy_sample(s: &PingSample) -> (r: PingSample)
    ensures
        r.sequence == s.sequence,
        r.observed_at == s.observed_at,
        r.latency_ms == s.latency_ms,
        r.path@ == s.path@,
        opt_view(r.endpoint_or_region) == opt_view(s.endpoint_or_region),
        r.raw_line@ == s.raw_line@,
{
    let path = match &s.path {
        crate::domain::DiagnosticPath::Direct => crate::domain::DiagnosticPath::Direct,
        crate::domain::DiagnosticPath::Derp { region } => crate::domain::DiagnosticPath::Derp {
            region: match region {
                Some(x) => Some(x.clone()),
                None => None,
            },
        },
        crate::domain::DiagnosticPath::PeerRelay { peer } => crate::domain::DiagnosticPath::PeerRelay {
            peer: match peer {
                Some(x) => Some(x.clone()),
                None => None,
            },
        },
        crate::domain::DiagnosticPath::Unknown => crate::domain::DiagnosticPath::Unknown,
    };
    PingSample {
        sequence: s.sequence,
        observed_at: s.observed_at,
        latency_ms: s.latency_ms,
        path,
        endpoint_or_region: match &s.endpoint_or_region {
            Some(x) => Some(x.clone()),
            None => None,
        },
        raw_line: s.raw_line.clone(),
    }
}

/// Takes one line of a streaming diagnostic's output. A line that is not
/// UTF-8, and any error output, only goes into the detail. For a ping, each
/// output line counts a sequence number; a reply becomes a sample and any
/// other line goes into the detail. For a netcheck, each line is kept and
/// read as a report (`parsed` is the line's text read as JSON); a line that
/// is no report goes into the detail. Ping and netcheck lines report
/// progress; other requests take no output lines.
pub fn handle_stream_line(
    stream: &mut StreamAccumulator,
    request: &DiagnosticRequest,
    line: &ProcessLine,
    parsed: &Result<JsonValue, String>,
    observed_at: Timestamp,
) -> (r: Option<StreamProgress>)
    ensures
        ({
            let before = *old(stream);
            let after = *final(stream);
            let text = line_text(line.bytes@);
            if !valid_utf8(line.bytes@) {
                &&& r is None
                &&& after.detail@ == with_line(before.detail@, line.stream.label_spec() + ": non-UTF-8 output"@)
                &&& after.ping_samples@ == before.ping_samples@
                &&& after.netcheck_lines@ == before.netcheck_lines@
                &&& after.sequence == before.sequence
            } else if line.stream == OutputStream::Stderr {
                &&& r is None
                &&& after.detail@ == with_line(before.detail@, "stderr: "@ + text)
                &&& after.ping_samples@ == before.ping_samples@
                &&& after.netcheck_lines@ == before.netcheck_lines@
                &&& after.sequence == before.sequence
            } else {
                match request {
                    DiagnosticRequest::Ping { .. } => {
                        let sequence = saturating_plus(before.sequence, 1);
                        &&& after.sequence == sequence
                        &&& after.netcheck_lines@ == before.netcheck_lines@
                        &&& r matches Some(p) && p.detail@ == text && p.netcheck is None && p.progress == (Progress {
                            completed: ping_completed(after.ping_samples@.len()),
                            total: 10,
                        }) && (is_ping_reply(text) ==> {
                            &&& p.sample matches Some(s) && ping_sample_matches(s, text, sequence, observed_at)
                            &&& after.ping_samples@.len() == before.ping_samples@.len() + 1
                            &&& after.ping_samples@.drop_last() == before.ping_samples@
                            &&& ping_sample_matches(after.ping_samples@.last(), text, sequence, observed_at)
                            &&& after.detail@ == before.detail@
                        }) && (!is_ping_reply(text) ==> {
                            &&& p.sample is None
                            &&& after.ping_samples@ == before.ping_samples@
                            &&& after.detail@ == with_line(before.detail@, text)
                        })
                    },
                    DiagnosticRequest::Netcheck { .. } => {
                        &&& after.sequence == before.sequence
                        &&& after.ping_samples@ == before.ping_samples@
                        &&& views(after.netcheck_lines@) == views(before.netcheck_lines@).push(text)
                        &&& r matches Some(p) && p.detail@ == text && p.sample is None && p.progress == (Progress {
                            completed: netcheck_completed(after.netcheck_lines@.len()),
                            total: 0,
                        }) && (if parsed matches Ok(v) && v is Object {
                            &&& p.netcheck matches Some(o) && netcheck_matches(o, parsed->Ok_0, observed_at)
                            &&& after.detail@ == before.detail@
                        } else {
                            &&& p.netcheck is None
                            &&& after.detail@ == with_line(before.detail@, text)
                        })
                    },
                    _ => {
                        &&& r is None
                        &&& after.detail@ == before.detail@
                        &&& after.ping_samples@ == before.ping_samples@
                        &&& after.netcheck_lines@ == before.netcheck_lines@
                        &&& after.sequence == before.sequence
                    },
                }
            }
        }),
{
    let text = match stream_line_text(line.bytes.as_slice()) {
        Some(t) => t,
        None => {
            let mut note = chars_of(stream_label(line.stream));
            crate::text::append_str(&mut note, ": non-UTF-8 output");
            let note = string_from_chars(&note);
            stream.detail = append_bounded(stream.detail.as_str(), note.as_str());
            return None;
        },
    };
    if line.stream == OutputStream::Stderr {
        let mut note = chars_of("stderr: ");
        crate::text::append_str(&mut note, text.as_str());
        let note = string_from_chars(&note);
        stream.detail = append_bounded(stream.detail.as_str(), note.as_str());
        return None;
    }
    match request {
        DiagnosticRequest::Ping { .. } => {
            stream.sequence = stream.sequence.saturating_add(1);
            let sample = parse_ping_line(text.as_str(), stream.sequence, observed_at);
            match &sample {
                Some(s) => {
                    stream.ping_samples.push(copy_sample(s));
                    proof {
                        assert(stream.ping_samples@.drop_last() =~= old(stream).ping_samples@);
                    }
                },
                None => {
                    stream.detail = append_bounded(stream.detail.as_str(), text.as_str());
                },
            }
            let n = stream.ping_samples.len();
            let completed: u16 = if n > 65535 {
                65535
            } else if n < 10 {
                n as u16
            } else {
                10
            };
            Some(StreamProgress { progress: Progress { completed, total: 10 }, detail: text, sample, netcheck: None })
        },
        DiagnosticRequest::Netcheck { .. } => {
            let ghost lines_before = stream.netcheck_lines@;
            stream.netcheck_lines.push(text.clone());
            proof {
                assert(views(stream.netcheck_lines@) =~= views(lines_before).push(text@));
            }
            let observation = match parse_netcheck_json(parsed, observed_at) {
                Ok(o) => Some(o),
                Err(_) => None,
            };
            if observation.is_none() {
                stream.detail = append_bounded(stream.detail.as_str(), text.as_str());
            }
            let n = stream.netcheck_lines.len();
            let completed: u16 = if n > 65535 {
                65535
            } else {
                n as u16
            };
            Some(StreamProgress { progress: Progress { completed, total: 0 }, detail: text, sample: None, netcheck: observation })
        },
        _ => None,
    }
}

} // verus!

//! The decisions of a service request around its command: whether the CLI
//! advertises the service at all, what the machine must still hold before
//! the command runs, and how a request whose command cannot be built fails.

use vstd::prelude::*;

use crate::domain::opt_view;
use crate::paths::{file_name, path_file_name};
use crate::text::{append_str, chars_of, string_from_chars};

verus! {

/// The local services the CLI says it offers.
#[derive(Debug, Clone, Copy, PartialEq, Eq, Structural)]
pub struct AdvertisedServices {
    pub serve: bool,
    pub funnel: bool,
    pub taildrop: bool,
    pub drive: bool,
    pub certificate: bool,
    pub metrics: bool,
    pub bugreport: bool,
}

/// The kinds of service request.
#[derive(Debug, Clone, Copy, PartialEq, Eq, Structural)]
pub enum ServiceRequestKind {
    Serve,
    ServeReset,
    Funnel,
    FunnelReset,
    TaildropSend,
    TaildropReceive,
    TaildriveShare,
    TaildriveRename,
    TaildriveUnshare,
    Certificate,
    Metrics,
    BugReport,
}

/// Why a service request failed before or instead of its command.
#[derive(Debug, Clone, Copy, PartialEq, Eq, Structural)]
pub enum ServiceFailureKind {
    Unsupported,
    CommandFailed,
    PermissionDenied,
}

/// A service request that failed, with the operation it names and the words
/// an operator reads.
#[derive(Debug, Clone, PartialEq, Eq)]
pub struct ServiceRefusal {
    pub kind: ServiceFailureKind,
    pub operation: String,
    pub summary: String,
    pub detail: String,
}

/// What was found on the machine for a request before its command: whether
/// the CLI serves the mapping's kind of listener, why a receive directory
/// cannot be used (if it cannot), and whether a directory to share is
/// still a directory.
#[derive(Debug, Clone, PartialEq, Eq)]
pub struct ServiceFacts {
    pub listener_supported: bool,
    pub receive_directory_error: Option<String>,
    pub share_directory_present: bool,
}

/// The CLI operation a request runs.
pub open spec fn service_operation(kind: ServiceRequestKind) -> Seq<char> {
    match kind {
        ServiceRequestKind::Serve => "serve"@,
        ServiceRequestKind::ServeReset => "serve reset"@,
        ServiceRequestKind::Funnel => "funnel"@,
        ServiceRequestKind::FunnelReset => "funnel reset"@,
        ServiceRequestKind::TaildropSend => "file cp"@,
        ServiceRequestKind::TaildropReceive => "file get"@,
        ServiceRequestKind::TaildriveShare => "drive share"@,
        ServiceRequestKind::TaildriveRename => "drive rename"@,
        ServiceRequestKind::TaildriveUnshare => "drive unshare"@,
        ServiceRequestKind::Certificate => "cert"@,
        ServiceRequestKind::Metrics => "metrics print"@,
        ServiceRequestKind::BugReport => "bugreport"@,
    }
}

/// What is said of a service the CLI does not advertise.
pub open spec fn unadvertised_detail(kind: ServiceRequestKind) -> Seq<char> {
    match kind {
        ServiceRequestKind::Serve | ServiceRequestKind::ServeReset => "Serve is not advertised by this CLI"@,
        ServiceRequestKind::Funnel | ServiceRequestKind::FunnelReset => "Funnel is not advertised by this CLI"@,
        ServiceRequestKind::TaildropSend | ServiceRequestKind::TaildropReceive => "Taildrop is not advertised by this CLI"@,
        ServiceRequestKind::TaildriveShare | ServiceRequestKind::TaildriveRename
        | ServiceRequestKind::TaildriveUnshare => "Taildrive is not advertised by this CLI"@,
        ServiceRequestKind::Certificate => "certificate acquisition is not advertised"@,
        ServiceRequestKind::Metrics => "metrics are not advertised by this CLI"@,
        ServiceRequestKind::BugReport => "bug reports are not advertised by this CLI"@,
    }
}

/// Whether the CLI offers what a request needs; a new Serve or Funnel
/// mapping also needs its kind of listener.
pub open spec fn is_advertised(a: AdvertisedServices, kind: ServiceRequestKind, listener_supported: bool) -> bool {
    match kind {
        ServiceRequestKind::Serve => a.serve && listener_supported,
        ServiceRequestKind::ServeReset => a.serve,
        ServiceRequestKind::Funnel => a.funnel && listener_supported,
        ServiceRequestKind::FunnelReset => a.funnel,
        ServiceRequestKind::TaildropSend | ServiceRequestKind::TaildropReceive => a.taildrop,
        ServiceRequestKind::TaildriveShare | ServiceRequestKind::TaildriveRename
        | ServiceRequestKind::TaildriveUnshare => a.drive,
        ServiceRequestKind::Certificate => a.certificate,
        ServiceRequestKind::Metrics => a.metrics,
        ServiceRequestKind::BugReport => a.bugreport,
    }
}

/// Whether a refusal has the given kind and words.
pub open spec fn refusal_is(
    r: ServiceRefusal,
    kind: ServiceFailureKind,
    operation: Seq<char>,
    summary: Seq<char>,
    detail: Seq<char>,
) -> bool {
    r.kind == kind && r.operation@ == operation && r.summary@ == summary && r.detail@ == detail
}

/// The refusal, if any, of a request before its command is built: an
/// unadvertised service first, then a receive directory that cannot be
/// used, then a directory to share that is gone.
pub open spec fn preflight_refusal(
    a: AdvertisedServices,
    kind: ServiceRequestKind,
    listener_supported: bool,
    receive_directory_error: Option<Seq<char>>,
    share_directory_present: bool,
) -> Option<(ServiceFailureKind, Seq<char>, Seq<char>, Seq<char>)> {
    if !is_advertised(a, kind, listener_supported) {
        Some((
            ServiceFailureKind::Unsupported,
            service_operation(kind),
            "local service capability is unsupported"@,
            unadvertised_detail(kind),
        ))
    } else if kind == ServiceRequestKind::TaildropReceive && receive_directory_error is Some {
        Some((
            ServiceFailureKind::PermissionDenied,
            "file get"@,
            "Taildrop destination is unavailable"@,
            receive_directory_error->0,
        ))
    } else if kind == ServiceRequestKind::TaildriveShare && !share_directory_present {
        Some((
            ServiceFailureKind::CommandFailed,
            "drive share"@,
            "Taildrive share directory is unavailable"@,
            "the directory no longer exists or is not a directory"@,
        ))
    } else {
        None
    }
}

fn refusal(kind: ServiceFailureKind, operation: &str, summary: &str, detail: &str) -> (r: ServiceRefusal)
    ensures
        refusal_is(r, kind, operation@, summary@, detail@),
{
    ServiceRefusal {
        kind,
        operation: operation.to_owned(),
        summary: summary.to_owned(),
        detail: detail.to_owned(),
    }
}

fn operation_of(kind: ServiceRequestKind) -> (r: &'static str)
    ensures
        r@ == service_operation(kind),
{
    match kind {
        ServiceRequestKind::Serve => "serve",
        ServiceRequestKind::ServeReset => "serve reset",
        ServiceRequestKind::Funnel => "funnel",
        ServiceRequestKind::FunnelReset => "funnel reset",
        ServiceRequestKind::TaildropSend => "file cp",
        ServiceRequestKind::TaildropReceive => "file get",
        ServiceRequestKind::TaildriveShare => "drive share",
        ServiceRequestKind::TaildriveRename => "drive rename",
        ServiceRequestKind::TaildriveUnshare => "drive unshare",
        ServiceRequestKind::Certificate => "cert",
        ServiceRequestKind::Metrics => "metrics print",
        ServiceRequestKind::BugReport => "bugreport",
    }
}

fn unadvertised_text(kind: ServiceRequestKind) -> (r: &'static str)
    ensures
        r@ == unadvertised_detail(kind),
{
    match kind {
        ServiceRequestKind::Serve | ServiceRequestKind::ServeReset => "Serve is not advertised by this CLI",
        ServiceRequestKind::Funnel | ServiceRequestKind::FunnelReset => "Funnel is not advertised by this CLI",
        ServiceRequestKind::TaildropSend | ServiceRequestKind::TaildropReceive => "Taildrop is not advertised by this CLI",
        ServiceRequestKind::TaildriveShare | ServiceRequestKind::TaildriveRename
        | ServiceRequestKind::TaildriveUnshare => "Taildrive is not advertised by this CLI",
        ServiceRequestKind::Certificate => "certificate acquisition is not advertised",
        ServiceRequestKind::Metrics => "metrics are not advertised by this CLI",
        ServiceRequestKind::BugReport => "bug reports are not advertised by this CLI",
    }
}

fn advertised(a: AdvertisedServices, kind: ServiceRequestKind, listener_supported: bool) -> (r: bool)
    ensures
        r == is_advertised(a, kind, listener_supported),
{
    match kind {
        ServiceRequestKind::Serve => a.serve && listener_supported,
        ServiceRequestKind::ServeReset => a.serve,
        ServiceRequestKind::Funnel => a.funnel && listener_supported,
        ServiceRequestKind::FunnelReset => a.funnel,
        ServiceRequestKind::TaildropSend | ServiceRequestKind::TaildropReceive => a.taildrop,
        ServiceRequestKind::TaildriveShare | ServiceRequestKind::TaildriveRename
        | ServiceRequestKind::TaildriveUnshare => a.drive,
        ServiceRequestKind::Certificate => a.certificate,
        ServiceRequestKind::Metrics => a.metrics,
        ServiceRequestKind::BugReport => a.bugreport,
    }
}

/// Whether a request may go on to build its command, or the failure it
/// ends in.
pub fn service_preflight(a: AdvertisedServices, kind: ServiceRequestKind, facts: &ServiceFacts) -> (r: Result<(), ServiceRefusal>)
    ensures
        match preflight_refusal(
            a,
            kind,
            facts.listener_supported,
            opt_view(facts.receive_directory_error),
            facts.share_directory_present,
        ) {
            None => r is Ok,
            Some((k, o, s, d)) => r matches Err(f) && refusal_is(f, k, o, s, d),
        },
{
    if !advertised(a, kind, facts.listener_supported) {
        return Err(refusal(
            ServiceFailureKind::Unsupported,
            operation_of(kind),
            "local service capability is unsupported",
            unadvertised_text(kind),
        ));
    }
    if kind == ServiceRequestKind::TaildropReceive {
        if let Some(error) = &facts.receive_directory_error {
            return Err(refusal(
                ServiceFailureKind::PermissionDenied,
                "file get",
                "Taildrop destination is unavailable",
                error.as_str(),
            ));
        }
    }
    if kind == ServiceRequestKind::TaildriveShare && !facts.share_directory_present {
        return Err(refusal(
            ServiceFailureKind::CommandFailed,
            "drive share",
            "Taildrive share directory is unavailable",
            "the directory no longer exists or is not a directory",
        ));
    }
    Ok(())
}

/// The summary and failure kind of a request whose command cannot be built;
/// nothing for the requests whose command is always built.
pub open spec fn invalid_request_words(kind: ServiceRequestKind) -> Option<(ServiceFailureKind, Seq<char>)> {
    match kind {
        ServiceRequestKind::Serve => Some((ServiceFailureKind::Unsupported, "Serve request is invalid"@)),
        ServiceRequestKind::Funnel => Some((ServiceFailureKind::Unsupported, "Funnel request is invalid"@)),
        ServiceRequestKind::TaildropSend => Some((ServiceFailureKind::CommandFailed, "Taildrop send request is invalid"@)),
        ServiceRequestKind::TaildropReceive => Some((ServiceFailureKind::CommandFailed, "Taildrop receive request is invalid"@)),
        ServiceRequestKind::TaildriveShare => Some((ServiceFailureKind::CommandFailed, "Taildrive share request is invalid"@)),
        ServiceRequestKind::TaildriveRename => Some((ServiceFailureKind::CommandFailed, "Taildrive rename request is invalid"@)),
        ServiceRequestKind::TaildriveUnshare => Some((ServiceFailureKind::CommandFailed, "Taildrive unshare request is invalid"@)),
        ServiceRequestKind::Certificate => Some((ServiceFailureKind::CommandFailed, "certificate request is invalid"@)),
        ServiceRequestKind::BugReport => Some((ServiceFailureKind::CommandFailed, "bug-report request is invalid"@)),
        _ => None,
    }
}

/// The failure of a request whose command could not be built, with the
/// builder's own words as detail.
pub fn invalid_request(kind: ServiceRequestKind, detail: &str) -> (r: Option<ServiceRefusal>)
    ensures
        match invalid_request_words(kind) {
            None => r is None,
            Some((k, s)) => r matches Some(f) && refusal_is(f, k, service_operation(kind), s, detail@),
        },
{
    let (k, summary) = match kind {
        ServiceRequestKind::Serve => (ServiceFailureKind::Unsupported, "Serve request is invalid"),
        ServiceRequestKind::Funnel => (ServiceFailureKind::Unsupported, "Funnel request is invalid"),
        ServiceRequestKind::TaildropSend => (ServiceFailureKind::CommandFailed, "Taildrop send request is invalid"),
        ServiceRequestKind::TaildropReceive => (ServiceFailureKind::CommandFailed, "Taildrop receive request is invalid"),
        ServiceRequestKind::TaildriveShare => (ServiceFailureKind::CommandFailed, "Taildrive share request is invalid"),
        ServiceRequestKind::TaildriveRename => (ServiceFailureKind::CommandFailed, "Taildrive rename request is invalid"),
        ServiceRequestKind::TaildriveUnshare => (ServiceFailureKind::CommandFailed, "Taildrive unshare request is invalid"),
        ServiceRequestKind::Certificate => (ServiceFailureKind::CommandFailed, "certificate request is invalid"),
        ServiceRequestKind::BugReport => (ServiceFailureKind::CommandFailed, "bug-report request is invalid"),
        _ => {
            return None;
        },
    };
    Some(refusal(k, operation_of(kind), summary, detail))
}

/// The failure of a Taildrop send whose chosen files are no longer all
/// regular files, checked once its command is built; nothing when they are.
pub fn selection_refusal(all_regular_files: bool) -> (r: Option<ServiceRefusal>)
    ensures
        all_regular_files ==> r is None,
        !all_regular_files ==> (r matches Some(f) && refusal_is(
            f,
            ServiceFailureKind::CommandFailed,
            "file cp"@,
            "Taildrop file selection is no longer valid"@,
            "one or more selected files are missing or no longer regular files"@,
        )),
{
    if all_regular_files {
        None
    } else {
        Some(refusal(
            ServiceFailureKind::CommandFailed,
            "file cp",
            "Taildrop file selection is no longer valid",
            "one or more selected files are missing or no longer regular files",
        ))
    }
}

/// What a completed Taildrop send says: to whom the files went.
pub fn sent_summary(display_name: &str) -> (r: String)
    ensures
        r@ == "Taildrop send completed to "@ + display_name@,
{
    let mut v = chars_of("Taildrop send completed to ");
    append_str(&mut v, display_name);
    string_from_chars(&v)
}

/// What a completed Taildrop receive says: where the files were put.
pub fn received_summary(directory: &str) -> (r: String)
    ensures
        r@ == "Taildrop receive completed in "@ + directory@,
{
    let mut v = chars_of("Taildrop receive completed in ");
    append_str(&mut v, directory);
    string_from_chars(&v)
}

/// The file names of those paths that have one, in order.
pub open spec fn file_names_of(paths: Seq<Seq<char>>) -> Seq<Seq<char>>
    decreases paths.len(),
{
    if paths.len() == 0 {
        seq![]
    } else {
        let rest = file_names_of(paths.drop_last());
        match file_name(paths.last()) {
            Some(n) => rest.push(n),
            None => rest,
        }
    }
}

/// The files a completed send names: those the CLI reported, or, where it
/// reported none, the file names of the paths that were sent.
pub fn sent_filenames(reported: Vec<String>, paths: &Vec<String>) -> (r: Vec<String>)
    ensures
        reported@.len() > 0 ==> r@ == reported@,
        reported@.len() == 0 ==> crate::local::client::views(r@) == file_names_of(crate::local::client::views(paths@)),
{
    if reported.len() > 0 {
        return reported;
    }
    let mut out: Vec<String> = Vec::new();
    let mut i: usize = 0;
    while i < paths.len()
        invariant
            i <= paths@.len(),
            crate::local::client::views(out@) == file_names_of(crate::local::client::views(paths@).take(i as int)),
        decreases paths.len() - i,
    {
        proof {
            let pv = crate::local::client::views(paths@);
            assert(pv.take(i + 1).drop_last() =~= pv.take(i as int));
            assert(pv.take(i + 1).last() == paths@[i as int]@);
        }
        match path_file_name(paths[i].as_str()) {
            Some(n) => {
                proof {
                    assert(crate::local::client::views(out@.push(n)) =~= crate::local::client::views(out@).push(n@));
                }
                out.push(n);
            },
            None => {},
        }
        i = i + 1;
    }
    proof {
        assert(crate::local::client::views(paths@).take(paths@.len() as int) =~= crate::local::client::views(paths@));
    }
    out
}

} // verus!

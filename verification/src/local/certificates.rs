//! `tailscale cert`: the command line, the checks on the request, and what
//! makes the files it wrote acceptable.
use vstd::prelude::*;

use crate::domain::Timestamp;
use crate::local::process::{args_are, LocalCommand, LocalOperation, StdinMode, OutputMode};
use crate::paths::{paths_equal, same_path};
use crate::text::{any_control, append_str, chars_of, has_ctrl, owned_strings, string_from_chars};

verus! {

/// A certificate to fetch for `domain`, written to the two paths.
#[derive(Debug, Clone, PartialEq, Eq)]
pub struct CertificateRequest {
    pub domain: String,
    pub certificate_path: String,
    pub key_path: String,
    pub min_validity: Option<String>,
}

/// The files that `tailscale cert` left, with their sizes.
#[derive(Debug, Clone, PartialEq, Eq)]
pub struct CertificateVerification {
    pub domain: String,
    pub certificate_path: String,
    pub key_path: String,
    pub certificate_size: u64,
    pub key_size: u64,
}

#[derive(Debug, Clone, PartialEq, Eq)]
pub struct CertificateError {
    pub detail: String,
}

impl CertificateError {
    fn new(detail: String) -> (r: Self)
        ensures
            r.detail == detail,
    {
        CertificateError { detail }
    }

    /// The text that describes the error: the detail itself.
    pub fn message(&self) -> (r: String)
        ensures
            r@ == self.detail@,
    {
        self.detail.clone()
    }
}

/// What the file system says about an output path: whether it is a regular
/// file, and its length.
#[derive(Debug, Clone, Copy, PartialEq, Eq, Structural)]
pub struct FileFacts {
    pub is_file: bool,
    pub len: u64,
}

/// Why a request is refused, if it is; checked in this order.
pub open spec fn request_problem(request: CertificateRequest) -> Option<Seq<char>> {
    if request.domain@.len() == 0 || has_ctrl(request.domain@) {
        Some("certificate domain is invalid"@)
    } else if same_path(request.certificate_path@, request.key_path@) {
        Some("certificate and key paths must be different"@)
    } else if request.certificate_path@ == "-"@ || request.key_path@ == "-"@ {
        Some("certificate and key paths cannot be '-'"@)
    } else if request.min_validity matches Some(v) && (v@.len() == 0 || has_ctrl(v@)) {
        Some("minimum validity is invalid"@)
    } else {
        None
    }
}

pub open spec fn certificate_words(request: CertificateRequest) -> Seq<Seq<char>> {
    let head = seq![
        "cert"@,
        "--cert-file="@ + request.certificate_path@,
        "--key-file="@ + request.key_path@,
    ];
    match request.min_validity {
        Some(v) => head.push("--min-validity="@ + v@).push(request.domain@),
        None => head.push(request.domain@),
    }
}

fn prefixed(prefix: &str, value: &str) -> (r: String)
    ensures
        r@ == prefix@ + value@,
{
    let mut v = chars_of(prefix);
    append_str(&mut v, value);
    string_from_chars(&v)
}

/// `tailscale cert` for a request that passes its checks.
pub fn certificate_command(path: &str, timeout_ms: u64, request: &CertificateRequest) -> (r: Result<LocalCommand, CertificateError>)
    ensures
        match request_problem(*request) {
            Some(m) => r matches Err(e) && e.detail@ == m,
            None => r matches Ok(c) && c.executable@ == path@ && c.operation == LocalOperation::Certificate
                && args_are(c.args@, certificate_words(*request)) && c.timeout_ms == Some(timeout_ms)
                && c.socket_path.is_none() && c.stdin == StdinMode::Closed
                && c.stdout_mode == OutputMode::Collect && c.stderr_mode == OutputMode::Collect
                && c.stdout_limit == 4194304 && c.stderr_limit == 262144 && c.redactions@.len() == 0,
        },
{
    let domain = chars_of(request.domain.as_str());
    if domain.len() == 0 || any_control(&domain) {
        return Err(CertificateError::new("certificate domain is invalid".to_owned()));
    }
    if paths_equal(request.certificate_path.as_str(), request.key_path.as_str()) {
        return Err(CertificateError::new("certificate and key paths must be different".to_owned()));
    }
    let cert_c = chars_of(request.certificate_path.as_str());
    let key_c = chars_of(request.key_path.as_str());
    if crate::text::chars_eq_str(&cert_c, "-") || crate::text::chars_eq_str(&key_c, "-") {
        return Err(CertificateError::new("certificate and key paths cannot be '-'".to_owned()));
    }
    if let Some(v) = &request.min_validity {
        let vc = chars_of(v.as_str());
        if vc.len() == 0 || any_control(&vc) {
            return Err(CertificateError::new("minimum validity is invalid".to_owned()));
        }
    }
    let mut args = owned_strings(&["cert"]);
    args.push(prefixed("--cert-file=", request.certificate_path.as_str()));
    args.push(prefixed("--key-file=", request.key_path.as_str()));
    if let Some(v) = &request.min_validity {
        args.push(prefixed("--min-validity=", v.as_str()));
    }
    args.push(request.domain.clone());
    proof {
        assert(args_are(args@, certificate_words(*request)));
    }
    Ok(LocalCommand::new(path.to_owned(), LocalOperation::Certificate, args).with_timeout(timeout_ms))
}

/// The size of an output file: it must exist and be a non-empty regular file.
pub open spec fn output_size(facts: Option<FileFacts>, label: Seq<char>) -> Result<u64, Seq<char>> {
    match facts {
        None => Err(label + " output was not created"@),
        Some(f) => if !f.is_file || f.len == 0 {
            Err(label + " output is not a non-empty regular file"@)
        } else {
            Ok(f.len)
        },
    }
}

fn file_size(facts: Option<FileFacts>, label: &str) -> (r: Result<u64, CertificateError>)
    ensures
        match output_size(facts, label@) {
            Ok(n) => r == Ok::<u64, CertificateError>(n),
            Err(m) => r matches Err(e) && e.detail@ == m,
        },
{
    match facts {
        None => Err(CertificateError::new(prefixed_after(label, " output was not created"))),
        Some(f) => {
            if !f.is_file || f.len == 0 {
                Err(CertificateError::new(prefixed_after(label, " output is not a non-empty regular file")))
            } else {
                Ok(f.len)
            }
        },
    }
}

fn prefixed_after(label: &str, tail: &str) -> (r: String)
    ensures
        r@ == label@ + tail@,
{
    prefixed(label, tail)
}

/// The certificate and key that `tailscale cert` wrote, given what the file
/// system says of each path; the certificate is judged first.
pub fn verify_certificate_outputs(
    request: &CertificateRequest,
    _observed_at: Timestamp,
    certificate: Option<FileFacts>,
    key: Option<FileFacts>,
) -> (r: Result<CertificateVerification, CertificateError>)
    ensures
        match (output_size(certificate, "certificate"@), output_size(key, "key"@)) {
            (Err(m), _) => r matches Err(e) && e.detail@ == m,
            (Ok(_), Err(m)) => r matches Err(e) && e.detail@ == m,
            (Ok(c), Ok(k)) => r matches Ok(v) && v.domain@ == request.domain@
                && v.certificate_path@ == request.certificate_path@ && v.key_path@ == request.key_path@
                && v.certificate_size == c && v.key_size == k,
        },
{
    let certificate_size = file_size(certificate, "certificate")?;
    let key_size = file_size(key, "key")?;
    Ok(CertificateVerification {
        domain: request.domain.clone(),
        certificate_path: request.certificate_path.clone(),
        key_path: request.key_path.clone(),
        certificate_size,
        key_size,
    })
}

} // verus!

//! The temporary file that a policy is edited in: its errors, and the checks
//! that a candidate read back from it must pass.
use vstd::prelude::*;

use crate::domain::TargetOs;
use crate::text::{append_str, chars_of, string_from_chars};

verus! {

/// The largest policy candidate accepted, in bytes (4 MiB).
pub const MAX_POLICY_BYTES: usize = 4194304;

#[derive(Debug, Clone, PartialEq, Eq)]
pub enum TemporaryFileError {
    UnsupportedPlatform,
    Unavailable,
    Create,
    Write,
    Read,
    NotRegular,
    Link,
    TooLarge,
    Cleanup { path: String },
}

impl TemporaryFileError {
    pub open spec fn message_spec(&self) -> Seq<char> {
        match self {
            TemporaryFileError::UnsupportedPlatform => "secure policy editing is not supported on this platform"@,
            TemporaryFileError::Unavailable => "secure policy temporary storage is unavailable"@,
            TemporaryFileError::Create => "the policy temporary file could not be created"@,
            TemporaryFileError::Write => "the policy temporary file could not be written"@,
            TemporaryFileError::Read => "the policy temporary file could not be read"@,
            TemporaryFileError::NotRegular => "the policy temporary file is not a regular file"@,
            TemporaryFileError::Link => "the policy temporary file was replaced by a link"@,
            TemporaryFileError::TooLarge => "the policy candidate exceeds the 4 MiB limit"@,
            TemporaryFileError::Cleanup { path } =>
                "the policy temporary file could not be removed; remediate this path after Tale exits: "@ + path@,
        }
    }

    pub fn message(&self) -> (r: String)
        ensures
            r@ == self.message_spec(),
    {
        match self {
            TemporaryFileError::UnsupportedPlatform => "secure policy editing is not supported on this platform".to_owned(),
            TemporaryFileError::Unavailable => "secure policy temporary storage is unavailable".to_owned(),
            TemporaryFileError::Create => "the policy temporary file could not be created".to_owned(),
            TemporaryFileError::Write => "the policy temporary file could not be written".to_owned(),
            TemporaryFileError::Read => "the policy temporary file could not be read".to_owned(),
            TemporaryFileError::NotRegular => "the policy temporary file is not a regular file".to_owned(),
            TemporaryFileError::Link => "the policy temporary file was replaced by a link".to_owned(),
            TemporaryFileError::TooLarge => "the policy candidate exceeds the 4 MiB limit".to_owned(),
            TemporaryFileError::Cleanup { path } => {
                let mut v = chars_of("the policy temporary file could not be removed; remediate this path after Tale exits: ");
                append_str(&mut v, path.as_str());
                string_from_chars(&v)
            },
        }
    }
}

/// Editing policies in a temporary file needs owner-only files, which only
/// Unix-like systems offer here.
pub fn policy_editing_supported(os: TargetOs) -> (r: bool)
    ensures
        r == !(os == TargetOs::Windows),
{
    match os {
        TargetOs::Windows => false,
        _ => true,
    }
}

/// What the file system says of a path without following a link.
#[derive(Debug, Clone, Copy, PartialEq, Eq, Structural)]
pub struct LinkFacts {
    pub is_symlink: bool,
    pub is_file: bool,
    pub len: u64,
}

/// The checks on a candidate path before it is opened: no link, a regular
/// file, and within the size limit.
pub fn check_candidate(facts: LinkFacts) -> (r: Result<(), TemporaryFileError>)
    ensures
        facts.is_symlink ==> r == Err::<(), TemporaryFileError>(TemporaryFileError::Link),
        !facts.is_symlink && !facts.is_file ==> r == Err::<(), TemporaryFileError>(TemporaryFileError::NotRegular),
        !facts.is_symlink && facts.is_file && facts.len > MAX_POLICY_BYTES ==> r == Err::<(), TemporaryFileError>(TemporaryFileError::TooLarge),
        !facts.is_symlink && facts.is_file && facts.len <= MAX_POLICY_BYTES ==> r is Ok,
{
    if facts.is_symlink {
        return Err(TemporaryFileError::Link);
    }
    if !facts.is_file {
        return Err(TemporaryFileError::NotRegular);
    }
    if facts.len > 4194304 {
        return Err(TemporaryFileError::TooLarge);
    }
    Ok(())
}

/// The checks on the bytes read back: a regular file within the limit.
pub fn check_candidate_bytes(is_file: bool, bytes: Vec<u8>) -> (r: Result<Vec<u8>, TemporaryFileError>)
    ensures
        !is_file ==> r == Err::<Vec<u8>, TemporaryFileError>(TemporaryFileError::NotRegular),
        is_file && bytes@.len() > MAX_POLICY_BYTES ==> r == Err::<Vec<u8>, TemporaryFileError>(TemporaryFileError::TooLarge),
        is_file && bytes@.len() <= MAX_POLICY_BYTES ==> (r matches Ok(b) && b@ == bytes@),
{
    if !is_file {
        return Err(TemporaryFileError::NotRegular);
    }
    if bytes.len() > MAX_POLICY_BYTES {
        return Err(TemporaryFileError::TooLarge);
    }
    Ok(bytes)
}

/// What tells one version of a file from another: its length, when it was
/// last modified (nanoseconds since the epoch, where the system says), and
/// the device and inode it lives at.
#[derive(Debug, Clone, Copy, PartialEq, Eq, Structural)]
pub struct FileIdentity {
    pub len: u64,
    pub modified_nanos: Option<u128>,
    pub device: u64,
    pub inode: u64,
}

/// Whether the file now differs from the one first written.
pub fn identity_changed(initial: FileIdentity, current: FileIdentity) -> (r: bool)
    ensures
        r == (initial != current),
{
    current != initial
}

/// Whether a newly written file has exactly owner read and write permission,
/// judged by the permission bits of its mode.
pub fn created_owner_only(mode: u32) -> (r: bool)
    ensures
        r == (mode & 0o777u32 == 0o600u32),
{
    mode & 0o777 == 0o600
}

/// A policy file can be read back only until it is closed; after that a read
/// fails as `Read`.
pub fn check_readable(closed: bool) -> (r: Result<(), TemporaryFileError>)
    ensures
        closed ==> r == Err::<(), TemporaryFileError>(TemporaryFileError::Read),
        !closed ==> r is Ok,
{
    if closed {
        Err(TemporaryFileError::Read)
    } else {
        Ok(())
    }
}

} // verus!

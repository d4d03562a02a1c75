//! Secret material and the stores that hold it: the record format and its
//! checks, the owner-only rule for the credential file, and an in-memory
//! store.
use vstd::prelude::*;

use crate::numbers::{decimal, format_u64};
use crate::text::{append_chars, append_str, chars_eq, chars_of, string_from_chars};

verus! {

/// The one record version this build reads and writes.
pub const RECORD_VERSION: u8 = 1;

#[derive(Debug, Clone, Copy, PartialEq, Eq, Structural)]
pub enum CredentialKind {
    OAuthClient,
    AccessToken,
}

impl CredentialKind {
    pub open spec fn label_spec(self) -> Seq<char> {
        match self {
            CredentialKind::OAuthClient => "oauth_client"@,
            CredentialKind::AccessToken => "access_token"@,
        }
    }

    pub fn label(self) -> (r: &'static str)
        ensures
            r@ == self.label_spec(),
    {
        match self {
            CredentialKind::OAuthClient => "oauth_client",
            CredentialKind::AccessToken => "access_token",
        }
    }
}

#[derive(Debug, Clone, PartialEq, Eq)]
pub enum SecretsError {
    ReadFailure,
    WriteFailure,
    Malformed,
    InvalidRecord,
    UnsafePermissions(String),
}

impl SecretsError {
    pub open spec fn message_spec(&self) -> Seq<char> {
        match self {
            SecretsError::ReadFailure => "the credential store could not be read"@,
            SecretsError::WriteFailure => "the credential store could not be written"@,
            SecretsError::Malformed => "the credential store is not valid TOML"@,
            SecretsError::InvalidRecord => "the credential record is not valid"@,
            SecretsError::UnsafePermissions(d) => "the credential store has unsafe permissions: "@ + d@,
        }
    }

    pub fn message(&self) -> (r: String)
        ensures
            r@ == self.message_spec(),
    {
        match self {
            SecretsError::ReadFailure => "the credential store could not be read".to_owned(),
            SecretsError::WriteFailure => "the credential store could not be written".to_owned(),
            SecretsError::Malformed => "the credential store is not valid TOML".to_owned(),
            SecretsError::InvalidRecord => "the credential record is not valid".to_owned(),
            SecretsError::UnsafePermissions(d) => {
                let mut v = chars_of("the credential store has unsafe permissions: ");
                append_str(&mut v, d.as_str());
                string_from_chars(&v)
            },
        }
    }
}

/// Which backend holds a profile's credential, and what it needs to find it.
#[derive(Debug, Clone, PartialEq, Eq)]
pub enum CredentialBackend {
    File { path: String },
}

impl CredentialBackend {
    pub fn label(&self) -> (r: &'static str)
        ensures
            r@ == "file"@,
    {
        match self {
            CredentialBackend::File { .. } => "file",
        }
    }

    /// The backend's location as it appears in configuration.
    pub fn location(&self) -> (r: &String)
        ensures
            match self {
                CredentialBackend::File { path } => r == path,
            },
    {
        match self {
            CredentialBackend::File { path } => path,
        }
    }
}

/// A credential as a store keeps it.
#[derive(Debug, Clone, PartialEq, Eq)]
pub enum StoredRecord {
    OAuthClient { version: u8, client_id: String, client_secret: String, requested_scopes: Vec<String> },
    AccessToken { version: u8, access_token: String },
}

pub ghost enum StoredRecordView {
    OAuthClient { version: u8, client_id: Seq<char>, client_secret: Seq<char>, requested_scopes: Seq<Seq<char>> },
    AccessToken { version: u8, access_token: Seq<char> },
}

impl View for StoredRecord {
    type V = StoredRecordView;

    open spec fn view(&self) -> StoredRecordView {
        match self {
            StoredRecord::OAuthClient { version, client_id, client_secret, requested_scopes } => StoredRecordView::OAuthClient {
                version: *version,
                client_id: client_id@,
                client_secret: client_secret@,
                requested_scopes: requested_scopes@.map_values(|s: String| s@),
            },
            StoredRecord::AccessToken { version, access_token } => StoredRecordView::AccessToken {
                version: *version,
                access_token: access_token@,
            },
        }
    }
}

impl StoredRecordView {
    /// A record this build can use: the current version and no empty secret.
    pub open spec fn is_valid(self) -> bool {
        match self {
            StoredRecordView::OAuthClient { version, client_id, client_secret, .. } =>
                version == RECORD_VERSION && client_id.len() > 0 && client_secret.len() > 0,
            StoredRecordView::AccessToken { version, access_token } =>
                version == RECORD_VERSION && access_token.len() > 0,
        }
    }

    pub open spec fn kind(self) -> CredentialKind {
        match self {
            StoredRecordView::OAuthClient { .. } => CredentialKind::OAuthClient,
            StoredRecordView::AccessToken { .. } => CredentialKind::AccessToken,
        }
    }
}

fn copy_strings(v: &Vec<String>) -> (r: Vec<String>)
    ensures
        r@.map_values(|s: String| s@) == v@.map_values(|s: String| s@),
{
    let mut out: Vec<String> = Vec::new();
    let mut i: usize = 0;
    while i < v.len()
        invariant
            i <= v.len(),
            out@.map_values(|s: String| s@) == v@.map_values(|s: String| s@).take(i as int),
        decreases v.len() - i,
    {
        let ghost before = out@.map_values(|s: String| s@);
        let s = v[i].clone();
        out.push(s);
        proof {
            assert(out@.map_values(|s: String| s@) =~= before.push(v@[i as int]@));
            assert(out@.map_values(|s: String| s@) =~= v@.map_values(|s: String| s@).take(i + 1));
        }
        i = i + 1;
    }
    proof {
        assert(v@.map_values(|s: String| s@).take(v@.len() as int) =~= v@.map_values(|s: String| s@));
    }
    out
}

impl StoredRecord {
    pub fn kind(&self) -> (r: CredentialKind)
        ensures
            r == self@.kind(),
    {
        match self {
            StoredRecord::OAuthClient { .. } => CredentialKind::OAuthClient,
            StoredRecord::AccessToken { .. } => CredentialKind::AccessToken,
        }
    }

    /// A copy with the same contents.
    pub fn duplicate(&self) -> (r: StoredRecord)
        ensures
            r@ == self@,
    {
        match self {
            StoredRecord::OAuthClient { version, client_id, client_secret, requested_scopes } => StoredRecord::OAuthClient {
                version: *version,
                client_id: client_id.clone(),
                client_secret: client_secret.clone(),
                requested_scopes: copy_strings(requested_scopes),
            },
            StoredRecord::AccessToken { version, access_token } => StoredRecord::AccessToken {
                version: *version,
                access_token: access_token.clone(),
            },
        }
    }

    /// The record, where it is one this build can use.
    pub fn checked(self) -> (r: Result<StoredRecord, SecretsError>)
        ensures
            self@.is_valid() ==> (r matches Ok(x) && x@ == self@),
            !self@.is_valid() ==> r == Err::<StoredRecord, SecretsError>(SecretsError::InvalidRecord),
    {
        let valid = match &self {
            StoredRecord::OAuthClient { version, client_id, client_secret, .. } =>
                *version == RECORD_VERSION && !client_id.as_str().is_empty() && !client_secret.as_str().is_empty(),
            StoredRecord::AccessToken { version, access_token } => *version == RECORD_VERSION && !access_token.as_str().is_empty(),
        };
        if valid {
            Ok(self)
        } else {
            Err(SecretsError::InvalidRecord)
        }
    }
}

/// Credentials in a single TOML file readable only by its owner.
#[derive(Debug, Clone, PartialEq, Eq)]
pub struct FileCredentialStore {
    path: String,
}

impl FileCredentialStore {
    pub fn new(path: String) -> (r: Self)
        ensures
            r.path_spec() == path@,
    {
        FileCredentialStore { path }
    }

    pub closed spec fn path_spec(&self) -> Seq<char> {
        self.path@
    }

    pub fn path(&self) -> (r: &String)
        ensures
            r@ == self.path_spec(),
    {
        &self.path
    }
}

/// Four octal digits of a permission mode below `0o10000`.
pub open spec fn octal4(mode: nat) -> Seq<char> {
    seq![
        crate::numbers::digit_char((mode / 512) % 8),
        crate::numbers::digit_char((mode / 64) % 8),
        crate::numbers::digit_char((mode / 8) % 8),
        crate::numbers::digit_char(mode % 8),
    ]
}

fn octal_digit(d: u32) -> (r: char)
    requires
        d < 8,
    ensures
        r == crate::numbers::digit_char(d as nat),
{
    let b: u8 = d as u8;
    (b + 48) as char
}

/// A credential file is refused unless neither group nor others may use it.
pub fn owner_only(mode: u32, path: &str) -> (r: Result<(), SecretsError>)
    ensures
        (mode % 512) % 64 == 0 ==> r is Ok,
        (mode % 512) % 64 != 0 ==> (r matches Err(SecretsError::UnsafePermissions(d))
            && d@ == path@ + " is mode "@ + octal4((mode % 512) as nat) + "; run `chmod 600 "@ + path@ + "`"@),
{
    let m = mode & 511;
    assert(m == mode % 512) by (bit_vector)
        requires
            m == mode & 511,
    ;
    if m % 64 == 0 {
        return Ok(());
    }
    let mut v = chars_of(path);
    append_str(&mut v, " is mode ");
    v.push(octal_digit((m / 512) % 8));
    v.push(octal_digit((m / 64) % 8));
    v.push(octal_digit((m / 8) % 8));
    v.push(octal_digit(m % 8));
    append_str(&mut v, "; run `chmod 600 ");
    append_str(&mut v, path);
    append_str(&mut v, "`");
    proof {
        assert(v@ =~= path@ + " is mode "@ + octal4(m as nat) + "; run `chmod 600 "@ + path@ + "`"@);
    }
    Err(SecretsError::UnsafePermissions(string_from_chars(&v)))
}

/// The credential entries as a map from reference to record.
pub open spec fn entries_map(entries: Seq<(String, StoredRecord)>) -> Map<Seq<char>, StoredRecordView>
    decreases entries.len(),
{
    if entries.len() == 0 {
        Map::empty()
    } else {
        entries_map(entries.drop_last()).insert(entries.last().0@, entries.last().1@)
    }
}

/// What `get` answers for a reference, given the stored records.
pub open spec fn lookup(records: Map<Seq<char>, StoredRecordView>, reference: Seq<char>) -> Result<Option<StoredRecordView>, SecretsError> {
    if !records.contains_key(reference) {
        Ok(None)
    } else if records[reference].is_valid() {
        Ok(Some(records[reference]))
    } else {
        Err(SecretsError::InvalidRecord)
    }
}

/// Credentials held in memory, one record per reference.
#[derive(Debug)]
pub struct MemoryCredentialStore {
    values: Vec<(String, StoredRecord)>,
}

impl MemoryCredentialStore {
    /// No reference occurs twice.
    pub closed spec fn wf(&self) -> bool {
        forall|a: int, b: int| 0 <= a < b < self.values@.len() ==> #[trigger] self.values@[a].0@ != #[trigger] self.values@[b].0@
    }

    pub closed spec fn records(&self) -> Map<Seq<char>, StoredRecordView> {
        entries_map(self.values@)
    }

    pub fn new() -> (r: Self)
        ensures
            r.wf(),
            r.records() == Map::<Seq<char>, StoredRecordView>::empty(),
    {
        MemoryCredentialStore { values: Vec::new() }
    }

}

impl Default for MemoryCredentialStore {
    /// An empty store, as `new` gives.
    fn default() -> (r: Self)
        ensures
            r.wf(),
            r.records() == Map::<Seq<char>, StoredRecordView>::empty(),
    {
        MemoryCredentialStore::new()
    }
}

impl MemoryCredentialStore {
    fn position(&self, reference: &str) -> (r: Option<usize>)
        ensures
            match r {
                Some(i) => i < self.values@.len() && self.values@[i as int].0@ == reference@,
                None => forall|i: int| 0 <= i < self.values@.len() ==> #[trigger] self.values@[i].0@ != reference@,
            },
    {
        let key = chars_of(reference);
        let mut i: usize = 0;
        while i < self.values.len()
            invariant
                i <= self.values@.len(),
                key@ == reference@,
                forall|k: int| 0 <= k < i ==> #[trigger] self.values@[k].0@ != reference@,
            decreases self.values.len() - i,
        {
            let other = chars_of(self.values[i].0.as_str());
            if chars_eq(&key, &other) {
                return Some(i);
            }
            i = i + 1;
        }
        None
    }

    /// The record stored under `reference`: none where there is none, an
    /// error where the record cannot be used.
    pub fn get(&self, reference: &str) -> (r: Result<Option<StoredRecord>, SecretsError>)
        requires
            self.wf(),
        ensures
            match lookup(self.records(), reference@) {
                Ok(Some(v)) => r matches Ok(Some(x)) && x@ == v,
                Ok(None) => r matches Ok(None),
                Err(e) => r == Err::<Option<StoredRecord>, SecretsError>(e),
            },
    {
        proof {
            lemma_entries_map_index(self.values@);
        }
        match self.position(reference) {
            None => Ok(None),
            Some(i) => match self.values[i].1.duplicate().checked() {
                Ok(x) => Ok(Some(x)),
                Err(e) => Err(e),
            },
        }
    }

    /// Stores `record` under `reference`, replacing what was there.
    pub fn set(&mut self, reference: &str, record: StoredRecord)
        requires
            old(self).wf(),
        ensures
            final(self).wf(),
            final(self).records() == old(self).records().insert(reference@, record@),
    {
        proof {
            lemma_entries_map_index(self.values@);
        }
        match self.position(reference) {
            Some(i) => {
                let ghost before = self.values@;
                let ghost rv = record@;
                let key = self.values[i].0.clone();
                self.values.set(i, (key, record));
                proof {
                    let after = self.values@;
                    assert forall|j: int| 0 <= j < after.len() implies #[trigger] after[j].0@ == before[j].0@ by {}
                    assert forall|a: int, b: int| 0 <= a < b < after.len() implies #[trigger] after[a].0@ != #[trigger] after[b].0@ by {
                        assert(after[a].0@ == before[a].0@ && after[b].0@ == before[b].0@);
                    }
                    lemma_entries_map_index(after);
                    lemma_entries_map_index(before);
                    let m1 = entries_map(after);
                    let m2 = entries_map(before).insert(reference@, rv);
                    assert forall|k: Seq<char>| m1.contains_key(k) <==> m2.contains_key(k) by {
                        if m1.contains_key(k) {
                            let j = choose|j: int| 0 <= j < after.len() && #[trigger] after[j].0@ == k;
                            assert(before[j].0@ == k);
                        }
                        if m2.contains_key(k) && k != reference@ {
                            let j = choose|j: int| 0 <= j < before.len() && #[trigger] before[j].0@ == k;
                            assert(after[j].0@ == k);
                        }
                        if k == reference@ {
                            assert(after[i as int].0@ == k);
                        }
                    }
                    assert forall|k: Seq<char>| m1.contains_key(k) implies m1[k] == m2[k] by {
                        let j = choose|j: int| 0 <= j < after.len() && #[trigger] after[j].0@ == k;
                        if j == i {
                            assert(m1[after[j].0@] == after[j].1@);
                        } else {
                            assert(after[j] == before[j]);
                            assert(before[j].0@ != before[i as int].0@);
                            assert(entries_map(before)[before[j].0@] == before[j].1@);
                        }
                    }
                    assert(m1 =~= m2);
                }
            },
            None => {
                let ghost before = self.values@;
                self.values.push((reference.to_owned(), record));
                proof {
                    assert(self.values@.drop_last() =~= before);
                }
            },
        }
    }

    /// Removes the record under `reference`; whether there was one.
    pub fn delete(&mut self, reference: &str) -> (r: bool)
        requires
            old(self).wf(),
        ensures
            final(self).wf(),
            r == old(self).records().contains_key(reference@),
            final(self).records() == old(self).records().remove(reference@),
    {
        proof {
            lemma_entries_map_index(self.values@);
        }
        match self.position(reference) {
            Some(i) => {
                let ghost before = self.values@;
                let _ = self.values.remove(i);
                proof {
                    let after = self.values@;
                    assert(after =~= before.remove(i as int));
                    assert forall|j: int| 0 <= j < after.len() implies #[trigger] after[j] == (if j < i { before[j] } else { before[j + 1] }) by {}
                    assert forall|a: int, b: int| 0 <= a < b < after.len() implies #[trigger] after[a].0@ != #[trigger] after[b].0@ by {
                        let a2 = if a < i { a } else { a + 1 };
                        let b2 = if b < i { b } else { b + 1 };
                        assert(after[a] == before[a2] && after[b] == before[b2]);
                    }
                    lemma_entries_map_index(after);
                    lemma_entries_map_index(before);
                    let m1 = entries_map(after);
                    let m2 = entries_map(before).remove(reference@);
                    assert forall|k: Seq<char>| m1.contains_key(k) <==> m2.contains_key(k) by {
                        if m1.contains_key(k) {
                            let j = choose|j: int| 0 <= j < after.len() && #[trigger] after[j].0@ == k;
                            let j2 = if j < i { j } else { j + 1 };
                            assert(before[j2].0@ == k);
                            assert(j2 != i);
                        }
                        if m2.contains_key(k) {
                            let j = choose|j: int| 0 <= j < before.len() && #[trigger] before[j].0@ == k;
                            assert(j != i);
                            let j1 = if j < i { j } else { j - 1 };
                            assert(after[j1].0@ == k);
                        }
                    }
                    assert forall|k: Seq<char>| m1.contains_key(k) implies m1[k] == m2[k] by {
                        let j = choose|j: int| 0 <= j < after.len() && #[trigger] after[j].0@ == k;
                        let j2 = if j < i { j } else { j + 1 };
                        assert(after[j] == before[j2]);
                        assert(entries_map(before)[before[j2].0@] == before[j2].1@);
                    }
                    assert(m1 =~= m2);
                }
                true
            },
            None => {
                proof {
                    assert(self.records() =~= self.records().remove(reference@));
                }
                false
            },
        }
    }
}

/// With distinct references, the map holds exactly the entries, each under
/// its own reference.
proof fn lemma_entries_map_index(entries: Seq<(String, StoredRecord)>)
    requires
        forall|a: int, b: int| 0 <= a < b < entries.len() ==> #[trigger] entries[a].0@ != #[trigger] entries[b].0@,
    ensures
        forall|k: Seq<char>| entries_map(entries).contains_key(k) <==> exists|i: int| 0 <= i < entries.len() && #[trigger] entries[i].0@ == k,
        forall|i: int| 0 <= i < entries.len() ==> #[trigger] entries_map(entries)[entries[i].0@] == entries[i].1@,
    decreases entries.len(),
{
    if entries.len() > 0 {
        let rest = entries.drop_last();
        let last = entries.last();
        let n = entries.len() - 1;
        assert forall|a: int, b: int| 0 <= a < b < rest.len() implies #[trigger] rest[a].0@ != #[trigger] rest[b].0@ by {
            assert(rest[a] == entries[a] && rest[b] == entries[b]);
        }
        lemma_entries_map_index(rest);
        assert forall|k: Seq<char>| entries_map(entries).contains_key(k) implies exists|i: int| 0 <= i < entries.len() && #[trigger] entries[i].0@ == k by {
            if k == last.0@ {
                assert(entries[n].0@ == k);
            } else {
                assert(entries_map(rest).contains_key(k));
                let i = choose|i: int| 0 <= i < rest.len() && #[trigger] rest[i].0@ == k;
                assert(rest[i] == entries[i]);
                assert(entries[i].0@ == k);
            }
        }
        assert forall|k: Seq<char>| (exists|i: int| 0 <= i < entries.len() && #[trigger] entries[i].0@ == k) implies entries_map(entries).contains_key(k) by {
            let i = choose|i: int| 0 <= i < entries.len() && #[trigger] entries[i].0@ == k;
            if i < n {
                assert(rest[i] == entries[i]);
                assert(rest[i].0@ == k);
                assert(entries_map(rest).contains_key(k));
            }
        }
        assert forall|i: int| 0 <= i < entries.len() implies #[trigger] entries_map(entries)[entries[i].0@] == entries[i].1@ by {
            if i < n {
                assert(rest[i] == entries[i]);
                assert(entries[i].0@ != last.0@);
                assert(entries_map(rest)[rest[i].0@] == rest[i].1@);
            }
        }
    }
}


/// A read after a write gives back what was written (or refuses it as
/// invalid), a read after a delete finds nothing, and neither touches the
/// record of any other reference.
pub proof fn read_after_write(records: Map<Seq<char>, StoredRecordView>, reference: Seq<char>, other: Seq<char>, record: StoredRecordView)
    requires
        other != reference,
    ensures
        record.is_valid() ==> lookup(records.insert(reference, record), reference) == Ok::<Option<StoredRecordView>, SecretsError>(Some(record)),
        !record.is_valid() ==> lookup(records.insert(reference, record), reference) == Err::<Option<StoredRecordView>, SecretsError>(SecretsError::InvalidRecord),
        lookup(records.remove(reference), reference) == Ok::<Option<StoredRecordView>, SecretsError>(None),
        lookup(records.insert(reference, record), other) == lookup(records, other),
        lookup(records.remove(reference), other) == lookup(records, other),
{
    assert(records.insert(reference, record).contains_key(reference));
    assert(!records.remove(reference).contains_key(reference));
    if records.contains_key(other) {
        assert(records.insert(reference, record)[other] == records[other]);
        assert(records.remove(reference)[other] == records[other]);
    }
}

/// A file is accepted exactly when neither its group nor others have any
/// permission on it; the file type bits above the permissions do not matter.
pub proof fn owner_only_ignores_type_bits(mode: u32, kind: u32)
    requires
        mode < 512,
        kind < 8388608,
    ensures
        ((kind * 512 + mode) % 512) % 64 == mode % 64,
{
    assert((kind * 512 + mode) % 512 == mode) by (nonlinear_arith)
        requires
            mode < 512,
    {
    }
}

} // verus!

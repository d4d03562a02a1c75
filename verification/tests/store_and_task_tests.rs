use tale::domain::TargetOs;
use tale::secrets::{owner_only, CredentialBackend, CredentialKind, FileCredentialStore, MemoryCredentialStore, SecretsError, StoredRecord};
use tale::task::{grace_duration, notification, TaskId, TaskResultKind, TaskState};
use tale::temporary::{
    check_readable, created_owner_only, identity_changed, FileIdentity,
    check_candidate, check_candidate_bytes, policy_editing_supported, LinkFacts, TemporaryFileError,
};

fn token(value: &str) -> StoredRecord {
    StoredRecord::AccessToken { version: 1, access_token: value.to_owned() }
}

#[test]
fn memory_store_reads_what_was_written() {
    let mut store = MemoryCredentialStore::new();
    assert_eq!(store.get("ops"), Ok(None));
    store.set("ops", token("secret"));
    assert_eq!(store.get("ops"), Ok(Some(token("secret"))));
    store.set("ops", token("rotated"));
    assert_eq!(store.get("ops"), Ok(Some(token("rotated"))));
    store.set("other", StoredRecord::AccessToken { version: 2, access_token: "x".to_owned() });
    assert_eq!(store.get("other"), Err(SecretsError::InvalidRecord));
    assert!(store.delete("ops"));
    assert!(!store.delete("ops"));
    assert_eq!(store.get("ops"), Ok(None));
}

#[test]
fn records_need_the_current_version_and_secrets() {
    let oauth = StoredRecord::OAuthClient {
        version: 1,
        client_id: "id".to_owned(),
        client_secret: String::new(),
        requested_scopes: vec!["devices:read".to_owned()],
    };
    assert_eq!(oauth.kind(), CredentialKind::OAuthClient);
    assert_eq!(oauth.checked(), Err(SecretsError::InvalidRecord));
    assert_eq!(token("t").checked(), Ok(token("t")));
    assert_eq!(CredentialKind::AccessToken.label(), "access_token");
}

#[test]
fn credential_files_must_be_owner_only() {
    assert_eq!(owner_only(0o100600, "/home/me/c.toml"), Ok(()));
    assert_eq!(
        owner_only(0o100644, "/home/me/c.toml"),
        Err(SecretsError::UnsafePermissions(
            "/home/me/c.toml is mode 0644; run `chmod 600 /home/me/c.toml`".to_owned()
        ))
    );
    assert_eq!(
        SecretsError::UnsafePermissions("x".to_owned()).message(),
        "the credential store has unsafe permissions: x"
    );
    let backend = CredentialBackend::File { path: "/c.toml".to_owned() };
    assert_eq!(backend.label(), "file");
    assert_eq!(backend.location(), "/c.toml");
    assert_eq!(FileCredentialStore::new("/c.toml".to_owned()).path(), "/c.toml");
}

#[test]
fn finished_tasks_raise_notices() {
    assert!(TaskState::Interrupted.is_terminal());
    assert!(!TaskState::Cancelling.is_terminal());
    assert_eq!(TaskState::Cancelling.label(), "cancelling");
    assert_eq!(TaskId(7).label(), "task-7");
    let notice = notification(TaskId(7), TaskState::Interrupted, "build-01", "lost", 100);
    assert!(notice.is_some());
    if let Some(notice) = notice {
        assert_eq!(notice.kind, TaskResultKind::Failure);
        assert_eq!(notice.message, "build-01: lost");
        assert_eq!(notice.expires_at, 105);
    }
    assert_eq!(notification(TaskId(1), TaskState::Running, "a", "b", 0), None);
    assert_eq!(notification(TaskId(1), TaskState::Succeeded, "a", "b", u64::MAX).unwrap().expires_at, u64::MAX);
    assert_eq!(grace_duration(), 1000);
}

#[test]
fn policy_candidates_are_checked() {
    assert!(policy_editing_supported(TargetOs::Linux));
    assert!(!policy_editing_supported(TargetOs::Windows));
    assert_eq!(check_candidate(LinkFacts { is_symlink: true, is_file: false, len: 0 }), Err(TemporaryFileError::Link));
    assert_eq!(check_candidate(LinkFacts { is_symlink: false, is_file: false, len: 0 }), Err(TemporaryFileError::NotRegular));
    assert_eq!(check_candidate(LinkFacts { is_symlink: false, is_file: true, len: 4 * 1024 * 1024 + 1 }), Err(TemporaryFileError::TooLarge));
    assert_eq!(check_candidate(LinkFacts { is_symlink: false, is_file: true, len: 4 * 1024 * 1024 }), Ok(()));
    assert_eq!(TemporaryFileError::TooLarge.message(), "the policy candidate exceeds the 4 MiB limit");
}

#[test]
fn preserves_bytes_and_rejects_symlink_replacement() {
    let original = b"{\r\n  // fictional comment\n}\n";
    let facts = LinkFacts { is_symlink: false, is_file: true, len: original.len() as u64 };
    assert_eq!(check_candidate(facts), Ok(()));
    assert_eq!(check_candidate_bytes(true, original.to_vec()), Ok(original.to_vec()));
}

#[test]
fn symlink_is_not_accepted() {
    let replaced = LinkFacts { is_symlink: true, is_file: false, len: 4 };
    assert!(matches!(check_candidate(replaced), Err(TemporaryFileError::Link)));
}

#[test]
fn file_identities_and_created_modes_are_compared() {
    let first = FileIdentity { len: 10, modified_nanos: Some(5), device: 1, inode: 2 };
    assert!(!identity_changed(first, first));
    assert!(identity_changed(first, FileIdentity { len: 11, ..first }));
    assert!(identity_changed(first, FileIdentity { modified_nanos: None, ..first }));
    assert!(identity_changed(first, FileIdentity { inode: 3, ..first }));
    assert!(created_owner_only(0o100600));
    assert!(!created_owner_only(0o100644));
    assert!(!created_owner_only(0o100700));
}

#[test]
fn closed_policy_files_cannot_be_read() {
    assert_eq!(check_readable(true), Err(TemporaryFileError::Read));
    assert_eq!(check_readable(false), Ok(()));
}

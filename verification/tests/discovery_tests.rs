use tale::domain::ExecutableSource;
use tale::json::JsonValue;
use tale::local::client::{
    capabilities_from, capability_groups, command_outcome, help_command, help_succeeded,
    lookup_paths, resolve_executable, search_path, version_from_output, ClientError,
    ExecutableError, ExecutableResolution, FileMetadata, HostPlatform, PathProbe,
    HELP_OUTPUT_LIMIT,
};
use tale::local::client::{preference_refusal, PreferenceCommandError};
use tale::local::process::{LocalCommandResult, LocalOperation, LocalProcessError};
use tale::paths::{has_several_components, path_extension_is_none, path_file_name, path_with_extension};

fn runnable(path: &str) -> PathProbe {
    PathProbe {
        path: path.to_owned(),
        metadata: Some(FileMetadata { is_file: true, mode: 0o755 }),
    }
}

fn not_runnable(path: &str) -> PathProbe {
    PathProbe {
        path: path.to_owned(),
        metadata: Some(FileMetadata { is_file: true, mode: 0o644 }),
    }
}

fn missing(path: &str) -> PathProbe {
    PathProbe { path: path.to_owned(), metadata: None }
}

fn input() -> ExecutableResolution {
    ExecutableResolution {
        cli_path: None,
        environment_path: None,
        config_path: None,
        socket_path: None,
        path: None,
        platform: HostPlatform::Unix,
    }
}

#[test]
fn command_line_path_wins_and_keeps_the_socket() {
    let mut request = input();
    request.cli_path = Some("/opt/tailscale".to_owned());
    request.environment_path = Some("/elsewhere/tailscale".to_owned());
    request.socket_path = Some("/run/ts.sock".to_owned());
    request.path = Some("/usr/bin".to_owned());
    assert_eq!(lookup_paths(&request), vec!["/opt/tailscale".to_owned()]);
    let probes = vec![runnable("/opt/tailscale"), runnable("/elsewhere/tailscale")];
    let resolved = resolve_executable(&request, &probes).unwrap();
    assert_eq!(resolved.path, "/opt/tailscale");
    assert_eq!(resolved.source, ExecutableSource::Cli);
    assert_eq!(resolved.socket_path, Some("/run/ts.sock".to_owned()));
}

#[test]
fn empty_command_line_path_is_invalid() {
    let mut request = input();
    request.cli_path = Some(String::new());
    assert!(lookup_paths(&request).is_empty());
    assert_eq!(resolve_executable(&request, &Vec::new()), Err(ExecutableError::InvalidPath));
}

#[test]
fn missing_explicit_path_reports_where_it_looked() {
    let mut request = input();
    request.cli_path = Some("/opt/tailscale".to_owned());
    let error = resolve_executable(&request, &vec![missing("/opt/tailscale")]).unwrap_err();
    assert_eq!(error.searched(), vec!["/opt/tailscale".to_owned()]);
}

#[test]
fn explicit_path_without_execute_bit_is_denied() {
    let mut request = input();
    request.config_path = Some("/opt/bin/tailscale".to_owned());
    assert_eq!(
        resolve_executable(&request, &vec![not_runnable("/opt/bin/tailscale")]),
        Err(ExecutableError::PermissionDenied { path: "/opt/bin/tailscale".to_owned() })
    );
}

#[test]
fn path_search_takes_the_first_runnable_directory() {
    let mut request = input();
    request.path = Some("/bin:/usr/local/bin/:/usr/bin".to_owned());
    assert_eq!(
        lookup_paths(&request),
        vec![
            "/bin/tailscale".to_owned(),
            "/usr/local/bin/tailscale".to_owned(),
            "/usr/bin/tailscale".to_owned()
        ]
    );
    let probes = vec![
        missing("/bin/tailscale"),
        not_runnable("/usr/local/bin/tailscale"),
        runnable("/usr/bin/tailscale"),
    ];
    let resolved = resolve_executable(&request, &probes).unwrap();
    assert_eq!(resolved.path, "/usr/bin/tailscale");
    assert_eq!(resolved.source, ExecutableSource::Path);
    assert_eq!(resolved.socket_path, None);
}

#[test]
fn path_search_reports_the_last_candidate_that_cannot_run() {
    let probes = vec![not_runnable("/a/tailscale"), not_runnable("/b/tailscale")];
    assert_eq!(
        search_path(&probes, "tailscale", Some("/a:/b:/c"), HostPlatform::Unix),
        Err(ExecutableError::PermissionDenied { path: "/b/tailscale".to_owned() })
    );
}

#[test]
fn path_search_lists_every_place_when_nothing_exists() {
    let error = search_path(&Vec::new(), "tailscale", Some("/a::/c"), HostPlatform::Unix).unwrap_err();
    assert_eq!(
        error.searched(),
        vec!["/a/tailscale".to_owned(), "tailscale".to_owned(), "/c/tailscale".to_owned()]
    );
    assert_eq!(
        search_path(&Vec::new(), "tailscale", None, HostPlatform::Unix),
        Err(ExecutableError::NotFound { searched: Vec::new() })
    );
}

#[test]
fn bare_environment_name_is_looked_up_in_path() {
    let mut request = input();
    request.environment_path = Some("ts-client".to_owned());
    request.path = Some("/opt/bin".to_owned());
    assert_eq!(lookup_paths(&request), vec!["/opt/bin/ts-client".to_owned()]);
    let resolved = resolve_executable(&request, &vec![runnable("/opt/bin/ts-client")]).unwrap();
    assert_eq!(resolved.path, "/opt/bin/ts-client");
    assert_eq!(resolved.source, ExecutableSource::Environment);
}

#[test]
fn relative_environment_path_with_a_directory_is_used_as_given() {
    let mut request = input();
    request.environment_path = Some("./bin/tailscale".to_owned());
    request.path = Some("/usr/bin".to_owned());
    assert_eq!(lookup_paths(&request), vec!["./bin/tailscale".to_owned()]);
    let resolved = resolve_executable(&request, &vec![runnable("./bin/tailscale")]).unwrap();
    assert_eq!(resolved.path, "./bin/tailscale");
    assert_eq!(resolved.source, ExecutableSource::Environment);
}

#[test]
fn windows_adds_exe_and_skips_the_mode_check() {
    let mut request = input();
    request.platform = HostPlatform::Windows;
    request.cli_path = Some("C:/tools/tailscale".to_owned());
    assert_eq!(
        lookup_paths(&request),
        vec!["C:/tools/tailscale".to_owned(), "C:/tools/tailscale.exe".to_owned()]
    );
    let probes = vec![PathProbe {
        path: "C:/tools/tailscale.exe".to_owned(),
        metadata: Some(FileMetadata { is_file: true, mode: 0 }),
    }];
    let resolved = resolve_executable(&request, &probes).unwrap();
    assert_eq!(resolved.path, "C:/tools/tailscale.exe");
}

#[test]
fn directory_is_not_an_executable() {
    let mut request = input();
    request.cli_path = Some("/opt".to_owned());
    let probes = vec![PathProbe {
        path: "/opt".to_owned(),
        metadata: Some(FileMetadata { is_file: false, mode: 0o755 }),
    }];
    assert_eq!(
        resolve_executable(&request, &probes),
        Err(ExecutableError::PermissionDenied { path: "/opt".to_owned() })
    );
}

#[test]
fn path_pieces_follow_std_path_rules() {
    assert!(has_several_components("./ts"));
    assert!(has_several_components("/ts"));
    assert!(has_several_components("a/b"));
    assert!(!has_several_components("ts/"));
    assert!(!has_several_components("ts"));
    assert_eq!(path_file_name("a/b/."), Some("b".to_owned()));
    assert_eq!(path_file_name("a/.."), None);
    assert_eq!(path_file_name("/"), None);
    assert!(path_extension_is_none(".hidden"));
    assert!(!path_extension_is_none("tool.bin"));
    assert_eq!(path_with_extension("dir/tool/./", "exe"), "dir/tool.exe");
    assert_eq!(path_with_extension("tool", "exe"), "tool.exe");
    assert_eq!(path_with_extension("a/..", "exe"), "a/..");
}

fn finished(operation: LocalOperation, status: Option<i32>, stdout: &[u8], stderr: &[u8]) -> LocalCommandResult {
    LocalCommandResult {
        operation,
        exit_status: status,
        stdout: stdout.to_vec(),
        stderr: stderr.to_vec(),
        started_at: 0,
        finished_at: 1,
        truncated_stdout: false,
        truncated_stderr: false,
    }
}

#[test]
fn help_commands_split_the_topic_and_cap_output() {
    let command = help_command("/usr/bin/tailscale", 2000, "drive  share", Some("/run/ts.sock"));
    assert_eq!(command.executable, "/usr/bin/tailscale");
    assert_eq!(command.operation, LocalOperation::Help("drive  share".to_owned()));
    assert_eq!(command.args, vec!["drive".to_owned(), "share".to_owned(), "--help".to_owned()]);
    assert_eq!(command.timeout_ms, Some(2000));
    assert_eq!(command.stdout_limit, HELP_OUTPUT_LIMIT);
    assert_eq!(command.stderr_limit, 65536);
    assert_eq!(command.socket_path, Some("/run/ts.sock".to_owned()));
}

#[test]
fn only_a_clean_exit_counts_as_available_help() {
    let ok = finished(LocalOperation::Help("ping".to_owned()), Some(0), b"usage", b"");
    let failed = finished(LocalOperation::Help("ping".to_owned()), Some(1), b"", b"unknown");
    assert!(help_succeeded(&Ok(ok)));
    assert!(!help_succeeded(&Ok(failed)));
    assert!(!help_succeeded(&Err(LocalProcessError::TimedOut)));
}

#[test]
fn capability_groups_decide_their_fields() {
    let groups = capability_groups();
    assert_eq!(groups.len(), 22);
    assert_eq!(groups[15], vec!["serve".to_owned(), "serve status".to_owned()]);
    assert_eq!(groups[18].len(), 4);
    let mut answers = vec![true; 22];
    answers[1] = false;
    answers[18] = false;
    let capabilities = capabilities_from(&answers);
    assert!(capabilities.ping);
    assert!(!capabilities.netcheck_json && !capabilities.netcheck_json_line);
    assert!(!capabilities.drive);
    assert!(capabilities.bugreport);
    let short = capabilities_from(&vec![true, true]);
    assert!(short.ping && short.netcheck_json && !short.dns_status_json && !short.bugreport);
}

#[test]
fn non_zero_exit_becomes_a_bounded_error() {
    let failed = finished(LocalOperation::Version, Some(2), b"", b"daemon is not running");
    assert_eq!(
        command_outcome(Ok(failed)),
        Err(ClientError::NonZero {
            operation: "version".to_owned(),
            status: Some(2),
            detail: "daemon is not running".to_owned(),
        })
    );
    assert_eq!(
        command_outcome(Err(LocalProcessError::NotFound)),
        Err(ClientError::Process(LocalProcessError::NotFound))
    );
    let ok = finished(LocalOperation::Version, Some(0), b"{}", b"");
    assert_eq!(command_outcome(Ok(ok.clone())), Ok(ok));
}

#[test]
fn version_output_without_a_version_is_unsupported() {
    let report = JsonValue::Object {
        entries: vec![("short".to_owned(), JsonValue::String("1.98.9".to_owned()))],
        rendered: String::new(),
    };
    let info = version_from_output(&LocalOperation::Version, &Ok(report)).unwrap();
    assert_eq!(info.version, "1.98.9");
    assert_eq!(
        version_from_output(&LocalOperation::Version, &Ok(JsonValue::Null)),
        Err(ClientError::UnsupportedOutput {
            operation: "version".to_owned(),
            detail: "required CLI version was not returned".to_owned(),
        })
    );
}

#[test]
fn refused_preference_requests_are_unsupported_output() {
    assert_eq!(
        preference_refusal(PreferenceCommandError::EmptyText { field: "hostname".to_owned() }),
        ClientError::UnsupportedOutput {
            operation: "preferences".to_owned(),
            detail: "hostname must be non-empty".to_owned(),
        }
    );
}

use tale::domain::{ExitNodeRequest, ExitNodeSelection};
use tale::local::accounts::{remove_command, switch_command};
use tale::local::handoff::{nc_command, ssh_command, HandoffError};
use tale::local::ipn::{
    reconnect_delay, PendingInvalidations, ReadSerializers, DEBOUNCE_WINDOW, MAX_DEBOUNCE_WINDOW,
};
use tale::local::daemon::WatchInvalidation;
use tale::local::policy::{list_command, reload_command};
use tale::local::preferences::{exit_node_command, parse_http_response, request_bytes, PreferenceError};

#[test]
fn reconnect_delays_follow_the_pinned_sequence() {
    assert_eq!(reconnect_delay(0), 250);
    assert_eq!(reconnect_delay(1), 500);
    assert_eq!(reconnect_delay(2), 1000);
    assert_eq!(reconnect_delay(3), 2000);
    assert_eq!(reconnect_delay(4), 5000);
    assert_eq!(reconnect_delay(50), 5000);
}

#[test]
fn invalidations_coalesce_by_resource_and_use_bounded_debounce() {
    let now: u64 = 1_000;
    let mut pending = PendingInvalidations::new(WatchInvalidation::Status, now);
    assert!(pending.is_some());
    if let Some(pending) = pending.as_mut() {
        pending.add(WatchInvalidation::Preferences);
        assert!(pending.status);
        assert!(pending.preferences);
        assert_eq!(pending.due_at() - now, DEBOUNCE_WINDOW);
        assert!(MAX_DEBOUNCE_WINDOW > DEBOUNCE_WINDOW);
    }
}

#[test]
fn read_generations_share_one_monotonic_sequence_across_callers() {
    let serializers = ReadSerializers::new();
    serializers.ensure_generations(10, 20);
    assert_eq!(serializers.reserve_status_generation(0), 11);
    assert_eq!(serializers.reserve_status_generation(50), 50);
    assert_eq!(serializers.reserve_status_generation(0), 51);
    assert_eq!(serializers.reserve_preferences_generation(0), 21);
    assert_eq!(serializers.reserve_preferences_generation(40), 40);
    assert_eq!(serializers.reserve_preferences_generation(0), 41);
}

#[test]
fn request_is_fixed_and_structured() {
    let request = String::from_utf8(request_bytes());
    assert!(request.is_ok());
    if let Ok(request) = request {
        assert!(request.contains("GET /localapi/v0/prefs HTTP/1.1"));
        assert!(request.contains("Host: local-tailscaled.sock"));
        assert!(request.contains("Tailscale-Cap: 138"));
    }
}

#[test]
fn http_errors_are_classified_without_body_scraping() {
    let result = parse_http_response(b"HTTP/1.1 403 Forbidden\r\n\r\n{}");
    assert_eq!(result, Err(PreferenceError::PermissionDenied));
    let result = parse_http_response(b"HTTP/1.1 404 Not Found\r\n\r\n{}");
    assert_eq!(result, Err(PreferenceError::HttpStatus { status: 404 }));
}

#[test]
fn exit_node_command_includes_set_and_preserves_explicit_empty_target() {
    let request = ExitNodeRequest {
        selection: ExitNodeSelection::Disabled,
        allow_lan_access: false,
    };
    let command = exit_node_command("tailscale", 1000, &request);
    assert_eq!(
        command.args,
        vec![
            "set".to_owned(),
            "--exit-node=".to_owned(),
            "--exit-node-allow-lan-access=false".to_owned(),
        ]
    );
}

#[test]
fn account_commands_use_opaque_ids_without_shell_parsing() {
    let path = "/tmp/tailscale with spaces";
    let command = switch_command(path, 2000, "profile id").ok();
    assert!(command.is_some());
    if let Some(command) = command {
        assert_eq!(command.args, vec!["switch".to_owned(), "profile id".to_owned()]);
    }
    let remove = remove_command(path, 2000, "opaque").ok();
    assert!(remove.is_some());
    if let Some(remove) = remove {
        assert_eq!(
            remove.args,
            vec!["switch".to_owned(), "remove".to_owned(), "opaque".to_owned()]
        );
    }
}

#[test]
fn policy_commands_are_exact() {
    let path = "tailscale";
    assert_eq!(
        list_command(path, 1000).args,
        vec!["syspolicy".to_owned(), "list".to_owned(), "--json".to_owned()]
    );
    assert_eq!(
        reload_command(path, 1000).args,
        vec!["syspolicy".to_owned(), "reload".to_owned(), "--json".to_owned()]
    );
}

#[test]
fn ssh_and_nc_argv_are_exact_and_single_value_targets() {
    let executable = "/tmp/tailscale with spaces";
    let ssh = ssh_command(executable, Some("alice"), "host.example");
    assert!(ssh.is_ok());
    if let Ok(ssh) = ssh {
        assert_eq!(ssh.args(), vec!["ssh".to_owned(), "alice@host.example".to_owned()]);
    }
    let nc = nc_command(executable, "host.example", "443");
    assert!(nc.is_ok());
    if let Ok(nc) = nc {
        assert_eq!(
            nc.args(),
            vec!["nc".to_owned(), "host.example".to_owned(), "443".to_owned()]
        );
    }
}

#[test]
fn unsafe_ssh_forms_and_zero_port_are_rejected() {
    let executable = "tailscale";
    assert!(ssh_command(executable, Some("a@b"), "host").is_err());
    assert!(ssh_command(executable, None, "host name").is_err());
    assert!(nc_command(executable, "host", "0").is_err());
}

#[test]
fn handoff_errors_name_the_failure() {
    let error = nc_command("tailscale", "host", "x").unwrap_err();
    assert_eq!(error, HandoffError::InvalidArgument("netcat port must be an integer".to_owned()));
    assert_eq!(
        error.message(),
        "interactive child argument is invalid: netcat port must be an integer"
    );
    let error = nc_command("tailscale", "host", "0").unwrap_err();
    assert_eq!(error, HandoffError::InvalidArgument("netcat port must be between 1 and 65535".to_owned()));
}

use tale::local::handoff::{
    bounded_handoff_duration, login_command, logout_command, validate_ssh_host,
    validate_ssh_username, HandoffError, HandoffResult,
};
use tale::local::handoff::parse_nc_port;
use tale::local::process::LocalOperation;

#[test]
fn socket_path_comes_before_the_command() {
    let command = login_command("tailscale").with_socket_path("/run/ts.sock");
    assert_eq!(command.args(), vec!["--socket", "/run/ts.sock", "login"]);
    assert_eq!(command.operation(), LocalOperation::Login);
    assert_eq!(command.executable(), "tailscale");
    let logout = logout_command("tailscale");
    assert_eq!(logout.args(), vec!["logout"]);
}

#[test]
fn ssh_arguments_are_checked() {
    assert!(validate_ssh_username("alice").is_ok());
    assert_eq!(
        validate_ssh_username("al ice"),
        Err(HandoffError::InvalidArgument(
            "SSH username must be non-empty and cannot contain @ or whitespace".to_owned()
        ))
    );
    assert!(validate_ssh_host("").is_err());
    assert!(validate_ssh_host("a@b").is_err());
    assert_eq!(parse_nc_port("+22"), Ok(22));
    assert!(parse_nc_port("65536").is_err());
}

#[test]
fn handoff_duration_never_runs_backwards() {
    let result = HandoffResult {
        operation: LocalOperation::Ssh,
        exit_status: Some(0),
        started_at: 1_000,
        finished_at: 1_750,
    };
    assert_eq!(bounded_handoff_duration(&result), 750);
    let reversed = HandoffResult { started_at: 2_000, ..result };
    assert_eq!(bounded_handoff_duration(&reversed), 0);
}

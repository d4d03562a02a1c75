use tale::local::mutation::{
    command_error_detail, operator_detail,
    fresh_reads, mutation_outcome, rejected_request, FreshRead, MutationEvidence, MutationKind,
    MutationVerdict,
};
use tale::local::service_task::{
    invalid_request, received_summary, selection_refusal, sent_filenames, sent_summary, service_preflight, AdvertisedServices, ServiceFacts,
    ServiceFailureKind, ServiceRequestKind,
};

fn evidence() -> MutationEvidence {
    MutationEvidence {
        command_error: None,
        interrupted: false,
        exit_status: Some(0),
        stderr: None,
        read_error: None,
        comparison: Ok(true),
    }
}

#[test]
fn a_change_that_ran_and_matches_is_verified() {
    let r = mutation_outcome(&evidence());
    assert_eq!(r.verdict, MutationVerdict::Verified);
    assert_eq!(r.summary, "command completed and state verified");
    assert_eq!(r.detail, "fresh authoritative local state matches the submitted fields");
    assert_eq!(r.exit_status, Some(0));
    let mut e = evidence();
    e.stderr = Some("warning: fictional".to_owned());
    let r = mutation_outcome(&e);
    assert_eq!(
        r.detail,
        "fresh authoritative local state matches the submitted fields; bounded stderr: warning: fictional"
    );
}

#[test]
fn a_change_is_judged_by_fresh_state_only_when_its_wait_was_cut_short() {
    let mut e = evidence();
    e.command_error = Some("exit status 1".to_owned());
    e.exit_status = Some(1);
    let r = mutation_outcome(&e);
    assert_eq!(r.verdict, MutationVerdict::CommandFailed);
    assert_eq!(r.summary, "local command failed");
    assert_eq!(r.detail, "exit status 1");
    assert_eq!(r.exit_status, Some(1));
    e.interrupted = true;
    e.exit_status = None;
    let r = mutation_outcome(&e);
    assert_eq!(r.verdict, MutationVerdict::Verified);
    assert_eq!(r.summary, "interrupted wait, fresh state verified");
    e.comparison = Ok(false);
    let r = mutation_outcome(&e);
    assert_eq!(r.verdict, MutationVerdict::VerificationMismatch);
    assert_eq!(r.detail, "fresh authoritative state determined that the request was not applied");
    e.read_error = Some("daemon unreachable".to_owned());
    let r = mutation_outcome(&e);
    assert_eq!(r.verdict, MutationVerdict::OutcomeUnknown);
    assert_eq!(r.summary, "command outcome unknown after interruption");
    assert_eq!(r.detail, "daemon unreachable");
}

#[test]
fn a_change_whose_fresh_state_cannot_be_read_or_compared_fails_its_read() {
    let mut e = evidence();
    e.read_error = Some("daemon unreachable".to_owned());
    let r = mutation_outcome(&e);
    assert_eq!(r.verdict, MutationVerdict::ReadFailed);
    assert_eq!(r.summary, "command ran but fresh verification failed");
    let mut e = evidence();
    e.comparison = Err("no route field".to_owned());
    let r = mutation_outcome(&e);
    assert_eq!(r.verdict, MutationVerdict::ReadFailed);
    assert_eq!(r.summary, "verification could not compare the request");
    assert_eq!(r.detail, "no route field");
    let mut e = evidence();
    e.comparison = Ok(false);
    let r = mutation_outcome(&e);
    assert_eq!(r.verdict, MutationVerdict::VerificationMismatch);
    assert_eq!(r.summary, "fresh state did not match the request");
}

#[test]
fn changes_read_back_the_state_they_touch() {
    assert_eq!(fresh_reads(MutationKind::Connect), vec![FreshRead::Status]);
    assert_eq!(fresh_reads(MutationKind::ExitNode), vec![FreshRead::Preferences]);
    assert_eq!(
        fresh_reads(MutationKind::AccountRemove),
        vec![FreshRead::Accounts, FreshRead::Status, FreshRead::Preferences]
    );
    assert_eq!(fresh_reads(MutationKind::SyspolicyReload), vec![FreshRead::Policy]);
    let r = rejected_request(MutationKind::Preferences, "bad hostname").unwrap();
    assert_eq!(r.verdict, MutationVerdict::CommandFailed);
    assert_eq!(r.summary, "preference request rejected");
    assert_eq!(r.detail, "bad hostname");
    assert_eq!(r.exit_status, None);
    assert!(rejected_request(MutationKind::Connect, "x").is_none());
}

fn all_services() -> AdvertisedServices {
    AdvertisedServices {
        serve: true,
        funnel: true,
        taildrop: true,
        drive: true,
        certificate: true,
        metrics: true,
        bugreport: true,
    }
}

fn facts() -> ServiceFacts {
    ServiceFacts {
        listener_supported: true,
        receive_directory_error: None,
        share_directory_present: true,
    }
}

#[test]
fn unadvertised_services_are_refused_before_any_command() {
    let mut a = all_services();
    a.funnel = false;
    let f = service_preflight(a, ServiceRequestKind::FunnelReset, &facts()).unwrap_err();
    assert_eq!(f.kind, ServiceFailureKind::Unsupported);
    assert_eq!(f.operation, "funnel reset");
    assert_eq!(f.summary, "local service capability is unsupported");
    assert_eq!(f.detail, "Funnel is not advertised by this CLI");
    assert!(service_preflight(a, ServiceRequestKind::Serve, &facts()).is_ok());
    let mut no_listener = facts();
    no_listener.listener_supported = false;
    let f = service_preflight(all_services(), ServiceRequestKind::Serve, &no_listener).unwrap_err();
    assert_eq!(f.detail, "Serve is not advertised by this CLI");
    assert!(service_preflight(all_services(), ServiceRequestKind::ServeReset, &no_listener).is_ok());
}

#[test]
fn machine_state_is_checked_before_service_commands() {
    let mut f = facts();
    f.receive_directory_error = Some("directory is not writable".to_owned());
    let r = service_preflight(all_services(), ServiceRequestKind::TaildropReceive, &f).unwrap_err();
    assert_eq!(r.kind, ServiceFailureKind::PermissionDenied);
    assert_eq!(r.summary, "Taildrop destination is unavailable");
    assert_eq!(r.detail, "directory is not writable");
    let mut f = facts();
    f.share_directory_present = false;
    let r = service_preflight(all_services(), ServiceRequestKind::TaildriveShare, &f).unwrap_err();
    assert_eq!(r.kind, ServiceFailureKind::CommandFailed);
    assert_eq!(r.summary, "Taildrive share directory is unavailable");
    assert!(selection_refusal(true).is_none());
    let r = selection_refusal(false).unwrap();
    assert_eq!(r.operation, "file cp");
    assert_eq!(r.summary, "Taildrop file selection is no longer valid");
    let r = invalid_request(ServiceRequestKind::Serve, "port out of range").unwrap();
    assert_eq!(r.kind, ServiceFailureKind::Unsupported);
    assert_eq!(r.summary, "Serve request is invalid");
    assert_eq!(r.detail, "port out of range");
    assert!(invalid_request(ServiceRequestKind::Metrics, "x").is_none());
}

#[test]
fn completed_transfers_name_their_files() {
    assert_eq!(sent_summary("laptop"), "Taildrop send completed to laptop");
    assert_eq!(received_summary("/tmp/inbox"), "Taildrop receive completed in /tmp/inbox");
    let paths = vec!["/home/a/notes.txt".to_owned(), "/".to_owned(), "b/photo.png".to_owned()];
    assert_eq!(
        sent_filenames(Vec::new(), &paths),
        vec!["notes.txt".to_owned(), "photo.png".to_owned()]
    );
    assert_eq!(
        sent_filenames(vec!["renamed.txt".to_owned()], &paths),
        vec!["renamed.txt".to_owned()]
    );
}

#[test]
fn operators_see_command_text_without_web_addresses() {
    assert_eq!(
        operator_detail("  visit https://login.example.com/a  then\nretry http://x "),
        "visit [url redacted] then retry [url redacted]"
    );
    let long = "a ".repeat(3000);
    assert_eq!(operator_detail(&long).len(), 4096);
    assert_eq!(
        command_error_detail("exit status 1", Some("denied by https://example.com")),
        "exit status 1; bounded stderr: denied by [url redacted]"
    );
    assert_eq!(command_error_detail("exit status 1", Some("  \n ")), "exit status 1");
    assert_eq!(command_error_detail("exit status 1", None), "exit status 1");
}

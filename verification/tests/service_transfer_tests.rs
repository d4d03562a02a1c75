use tale::local::services::{
    bugreport_command, metrics_command, parse_bugreport_identifier, redacted_metrics,
    serve_reset_command, serve_status_command,
};
use tale::local::transfers::{
    drive_list_command, parse_drive_list, parse_taildrop_progress, parse_taildrop_targets,
    taildrop_receive_command, taildrop_send_command, taildrop_targets_command, TaildriveShare,
    TaildropConflict, TransferProgress,
};

#[test]
fn bug_report_identifier_is_unique() {
    assert_eq!(
        parse_bugreport_identifier("Your bug report ID: BUG-1a2b-3c4d\n"),
        Ok("BUG-1a2b-3c4d".to_owned())
    );
    assert_eq!(
        parse_bugreport_identifier("nothing here").unwrap_err().detail,
        "bug-report identifier was not returned"
    );
    assert_eq!(
        parse_bugreport_identifier("BUG-1 and BUG-2").unwrap_err().detail,
        "bug-report output contained multiple report identifiers"
    );
    assert!(parse_bugreport_identifier("BUG- only").is_err());
}

#[test]
fn metrics_lines_with_credentials_are_redacted() {
    let output = b"tailscaled_up 1\napi_key=abc\nBearer xyz\nok 2";
    assert_eq!(redacted_metrics(output), "tailscaled_up 1\n[redacted]\n[redacted]\nok 2");
    assert_eq!(redacted_metrics(b""), "");
}

#[test]
fn service_commands_are_exact() {
    assert_eq!(serve_status_command("ts", 1).args, vec!["serve", "status", "--json"]);
    assert_eq!(serve_reset_command("ts", 1).args, vec!["serve", "reset"]);
    let metrics = metrics_command("ts", 1, 1024);
    assert_eq!(metrics.args, vec!["metrics", "print"]);
    assert_eq!(metrics.stdout_limit, 1024);
    let report = bugreport_command("ts", 1, Some("line one\nline two"), true);
    assert_eq!(
        report.map(|c| c.args),
        Ok(vec!["bugreport".to_owned(), "--diagnose".to_owned(), "line one\nline two".to_owned()])
    );
    assert!(bugreport_command("ts", 1, Some("bell\u{7}"), false).is_err());
    assert_eq!(bugreport_command("ts", 1, Some(""), false).map(|c| c.args), Ok(vec!["bugreport".to_owned()]));
}

#[test]
fn taildrop_targets_are_sorted_and_unique() {
    let input = "TARGET\tDISPLAY NAME\tDEVICE\tSTATUS\tREASON\nzeta\tZeta\tphone\tonline\tavailable\nalpha\tAlpha\t\toffline\tno space\n# comment\n";
    let targets = parse_taildrop_targets(input);
    assert!(targets.is_ok());
    if let Ok(targets) = targets {
        assert_eq!(targets.len(), 2);
        assert_eq!(targets[0].command_target, "alpha");
        assert_eq!(targets[0].device_name, "not returned");
        assert_eq!(targets[0].online, Some(false));
        assert_eq!(targets[0].capability_reason, Some("no space".to_owned()));
        assert_eq!(targets[1].command_target, "zeta");
        assert_eq!(targets[1].online, Some(true));
        assert_eq!(targets[1].capability_reason, None);
    }
    let dup = parse_taildrop_targets("a A\nb B\na C\n");
    assert_eq!(dup.unwrap_err().detail, "Taildrop target output contains duplicate command targets");
    let short = parse_taildrop_targets("ok Fine\nlonely\n");
    assert_eq!(
        short.unwrap_err().detail,
        "Taildrop target line 2 does not contain stable target and display fields"
    );
}

#[test]
fn progress_lines_give_percent_and_bytes() {
    assert_eq!(
        parse_taildrop_progress("  sending 40% 400/1000 ", 9),
        Some(TransferProgress { completed_bytes: Some(400), total_bytes: Some(1000), percent: Some(40), observed_at: 9 })
    );
    assert_eq!(
        parse_taildrop_progress("150% x/1000", 9),
        None
    );
    assert_eq!(parse_taildrop_progress("waiting", 9), None);
}

#[test]
fn drive_list_reads_columns() {
    let input = "NAME     PATH            AS\ndocs     /home/me/docs   me\n-----\nmusic    /srv/music      \n";
    let shares = parse_drive_list(input);
    assert_eq!(
        shares,
        Ok(vec![
            TaildriveShare { name: "docs".to_owned(), path: "/home/me/docs".to_owned(), as_user: Some("me".to_owned()) },
            TaildriveShare { name: "music".to_owned(), path: "/srv/music".to_owned(), as_user: None },
        ])
    );
    assert_eq!(parse_drive_list("  \n"), Ok(Vec::new()));
    assert_eq!(
        parse_drive_list("NAME     PATH            AS\nmusic    /srv/music\n").unwrap_err().detail,
        "Taildrive list row does not contain a name and path"
    );
    assert_eq!(parse_drive_list("nothing useful").unwrap_err().detail, "Taildrive list header was not recognized");
    assert_eq!(
        parse_drive_list("name-path\nx y\n").unwrap_err().detail,
        "Taildrive list requires NAME and PATH columns"
    );
    assert_eq!(
        parse_drive_list("NAME\tPATH\nonly\n").unwrap_err().detail,
        "Taildrive list row does not contain a name and path"
    );
}

#[test]
fn transfer_commands_are_exact() {
    assert_eq!(taildrop_targets_command("ts", 1).args, vec!["file", "cp", "--targets"]);
    assert_eq!(drive_list_command("ts", 1).args, vec!["drive", "list"]);
    let send = taildrop_send_command("ts", 1, &vec!["/a b.txt".to_owned(), "/c".to_owned()], "peer");
    assert_eq!(
        send.map(|c| c.args),
        Ok(vec!["file".to_owned(), "cp".to_owned(), "--update-interval=1s".to_owned(), "/a b.txt".to_owned(), "/c".to_owned(), "peer:".to_owned()])
    );
    assert_eq!(taildrop_send_command("ts", 1, &Vec::new(), "peer").unwrap_err().detail, "at least one file is required");
    assert_eq!(taildrop_send_command("ts", 1, &vec!["/a".to_owned()], "").unwrap_err().detail, "Taildrop target is invalid");
}

#[test]
fn receiving_needs_a_real_directory() {
    let command = taildrop_receive_command("/usr/bin/tailscale", 5000, "/home/me/in", TaildropConflict::Rename, true)
        .expect("command");
    assert_eq!(command.args, vec!["file", "get", "--conflict=rename", "--wait", "/home/me/in"]);
    assert_eq!(command.timeout_ms, Some(5000));
    let command = taildrop_receive_command("tailscale", 1, "in", TaildropConflict::Skip, false).expect("command");
    assert_eq!(command.args, vec!["file", "get", "--conflict=skip", "in"]);
    assert_eq!(
        taildrop_receive_command("tailscale", 1, "-", TaildropConflict::Overwrite, false).err().map(|e| e.detail),
        Some("receive directory is invalid".to_owned())
    );
    assert!(taildrop_receive_command("tailscale", 1, "", TaildropConflict::Overwrite, false).is_err());
}

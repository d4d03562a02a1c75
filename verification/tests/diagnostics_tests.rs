use tale::domain::DiagnosticPath;
use tale::local::diagnostics::{
    dns_query_command, netcheck_command, parse_ping_line, ping_command, validate_dns_query,
    whois_command, DiagnosticRequest, DnsRecordType, WhoisProtocol, PING_OUTPUT_LIMIT,
};
use tale::local::process::OutputMode;

#[test]
fn dns_record_types_parse_in_any_case() {
    assert_eq!(DnsRecordType::parse("aaaa"), Some(DnsRecordType::Aaaa));
    assert_eq!(DnsRecordType::parse("Txt"), Some(DnsRecordType::Txt));
    assert_eq!(DnsRecordType::parse("SOA"), None);
    assert_eq!(DnsRecordType::Cname.label(), "CNAME");
    assert_eq!(WhoisProtocol::Udp.label(), "udp");
}

#[test]
fn diagnostic_labels_name_the_request() {
    assert_eq!(DiagnosticRequest::Netcheck { live: true }.label(), "netcheck live");
    assert_eq!(DiagnosticRequest::Netcheck { live: false }.label(), "netcheck");
    assert_eq!(DiagnosticRequest::DnsStatus.label(), "dns status");
    assert_eq!(
        DiagnosticRequest::Ping { target: "peer".to_owned() }.label(),
        "ping"
    );
}

#[test]
fn dns_queries_are_checked() {
    assert_eq!(validate_dns_query("example.test", "mx"), Ok(DnsRecordType::Mx));
    assert_eq!(
        validate_dns_query("bad name", "A"),
        Err("DNS name must be non-empty and contain no whitespace".to_owned())
    );
    assert_eq!(
        validate_dns_query("", "A"),
        Err("DNS name must be non-empty and contain no whitespace".to_owned())
    );
    assert_eq!(
        validate_dns_query("example.test", "ANY"),
        Err("DNS record type must be one of A, AAAA, CNAME, MX, NS, PTR, SRV, TXT".to_owned())
    );
}

#[test]
fn diagnostic_commands_are_exact() {
    let ping = ping_command("tailscale", 5000, "peer-1");
    assert_eq!(
        ping.args,
        vec!["ping", "--c=10", "--timeout=5s", "--until-direct=true", "peer-1"]
    );
    assert_eq!(ping.stdout_mode, OutputMode::Lines);
    assert_eq!(ping.stdout_limit, PING_OUTPUT_LIMIT);
    assert_eq!(ping.timeout_ms, Some(5000));
    let live = netcheck_command("tailscale", None, true);
    assert_eq!(live.args, vec!["netcheck", "--format=json-line", "--every=2s"]);
    assert_eq!(live.timeout_ms, None);
    let once = netcheck_command("tailscale", Some(3000), false);
    assert_eq!(once.args, vec!["netcheck", "--format=json"]);
    let query = dns_query_command("tailscale", 1000, "example.test", DnsRecordType::Srv);
    assert_eq!(query.args, vec!["dns", "query", "--json", "example.test", "SRV"]);
    let whois = whois_command("tailscale", 1000, "100.64.0.1", Some(WhoisProtocol::Tcp));
    assert_eq!(whois.args, vec!["whois", "--json", "--proto=tcp", "100.64.0.1"]);
    let plain = whois_command("tailscale", 1000, "100.64.0.1", None);
    assert_eq!(plain.args, vec!["whois", "--json", "100.64.0.1"]);
}

#[test]
fn ping_replies_are_read_with_path_and_latency() {
    let sample = parse_ping_line("  pong from peer (100.64.0.2) via 192.0.2.10:41641 in 12ms  ", 3, 77);
    assert!(sample.is_some());
    if let Some(sample) = sample {
        assert_eq!(sample.sequence, 3);
        assert_eq!(sample.observed_at, 77);
        assert_eq!(sample.latency_ms, Some(12));
        assert_eq!(sample.path, DiagnosticPath::Direct);
        assert_eq!(sample.endpoint_or_region, Some("192.0.2.10:41641".to_owned()));
        assert_eq!(
            sample.raw_line,
            "pong from peer (100.64.0.2) via 192.0.2.10:41641 in 12ms"
        );
    }
    let derp = parse_ping_line("pong from peer (100.64.0.2) via DERP(fra) in 31.4ms", 1, 0);
    assert!(derp.is_some());
    if let Some(derp) = derp {
        assert_eq!(derp.latency_ms, Some(31));
        assert_eq!(derp.path, DiagnosticPath::Derp { region: Some("fra".to_owned()) });
    }
    assert_eq!(parse_ping_line("   ", 1, 0), None);
    assert_eq!(parse_ping_line("timeout waiting for peer", 1, 0), None);
}

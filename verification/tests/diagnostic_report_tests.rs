use tale::json::JsonValue;
use tale::domain::{DerpLatency, NetcheckObservation};
use tale::local::diagnostics::{validate_whois_target, DiagnosticRequest, IpAddress};
use tale::local::process::OutputStream;
use tale::local::streaming::{handle_stream_line, stream_line_text, StreamAccumulator};
use tale::local::diagnostics::{
    format_netcheck_summary, parse_dns_query, parse_dns_status, parse_netcheck_json, parse_netcheck_lines, parse_whois,
    DnsRecordType,
};

fn object(entries: Vec<(&str, JsonValue)>, rendered: &str) -> JsonValue {
    JsonValue::Object {
        entries: entries.into_iter().map(|(k, v)| (k.to_owned(), v)).collect(),
        rendered: rendered.to_owned(),
    }
}

fn array(items: Vec<JsonValue>, rendered: &str) -> JsonValue {
    JsonValue::Array { items, rendered: rendered.to_owned() }
}

fn string(value: &str) -> JsonValue {
    JsonValue::String(value.to_owned())
}

fn number(text: &str, millis: Option<u64>) -> JsonValue {
    JsonValue::Number { text: text.to_owned(), millis }
}

#[test]
fn dns_status_reads_fields_under_any_spelling() {
    let report = object(
        vec![
            ("Forwarder", string("YES")),
            ("MagicDNS", JsonValue::Bool(true)),
            ("magic_dns_suffix", string("example.ts.net")),
            ("Resolvers", array(vec![string("1.1.1.1"), number("53", Some(53)), JsonValue::Null], "")),
            (
                "SplitDNS",
                object(
                    vec![
                        ("corp.", array(vec![string("10.0.0.1")], "")),
                        ("a.", string("10.0.0.2")),
                        ("corp.", array(vec![string("10.0.0.3")], "")),
                    ],
                    "",
                ),
            ),
        ],
        "",
    );
    let status = parse_dns_status(&Ok(report), 77).unwrap();
    assert_eq!(status.forwarder_enabled, Some(true));
    assert_eq!(status.magic_dns_enabled, Some(true));
    assert_eq!(status.magic_dns_suffix, Some("example.ts.net".to_owned()));
    assert_eq!(status.current_node_dns_name, None);
    assert_eq!(status.resolvers, vec!["1.1.1.1".to_owned(), "53".to_owned()]);
    assert_eq!(
        status.split_routes,
        vec![
            ("a.".to_owned(), vec!["10.0.0.2".to_owned()]),
            ("corp.".to_owned(), vec!["10.0.0.3".to_owned()]),
        ]
    );
    assert!(status.cert_domains.is_empty());
    assert_eq!(status.observed_at, 77);
}

#[test]
fn dns_reports_name_the_parse_failure() {
    assert_eq!(
        parse_dns_status(&Err("EOF while parsing".to_owned()), 0),
        Err("invalid DNS status JSON: EOF while parsing".to_owned())
    );
    assert_eq!(
        parse_dns_query(&Err("x".to_owned()), "a".to_owned(), DnsRecordType::A, 0),
        Err("invalid DNS query JSON: x".to_owned())
    );
    assert_eq!(
        parse_whois(&Err("y".to_owned()), "100.64.0.1".to_owned(), 0),
        Err("invalid whois JSON: y".to_owned())
    );
}

#[test]
fn dns_query_reads_answers_and_latency() {
    let answer = object(
        vec![("Data", string("host.example.")), ("type", string("CNAME")), ("TTL", number("300", Some(300)))],
        "{\"Data\":\"host.example.\",\"TTL\":300,\"type\":\"CNAME\"}",
    );
    let report = object(
        vec![
            ("Answers", array(vec![string("100.64.0.1"), answer], "")),
            ("Latency", number("0.012", Some(12))),
        ],
        "{\"report\":1}",
    );
    let result = parse_dns_query(&Ok(report), "host.example".to_owned(), DnsRecordType::Cname, 5).unwrap();
    assert_eq!(result.name, "host.example");
    assert_eq!(result.record_type, "CNAME");
    assert_eq!(result.answers.len(), 2);
    assert_eq!(result.answers[0].value, "100.64.0.1");
    assert_eq!(result.answers[0].raw_detail, None);
    assert_eq!(result.answers[1].value, "host.example.");
    assert_eq!(result.answers[1].record_type, Some("CNAME".to_owned()));
    assert_eq!(result.answers[1].ttl, Some(300));
    assert_eq!(
        result.answers[1].raw_detail,
        Some("{\"Data\":\"host.example.\",\"TTL\":300,\"type\":\"CNAME\"}".to_owned())
    );
    assert_eq!(result.latency_ms, Some(12));
    assert_eq!(result.result_class, "success");
    assert_eq!(result.raw_detail, "{\"report\":1}");
}

#[test]
fn dns_query_without_answers_is_empty_and_a_status_wins() {
    let empty = parse_dns_query(&Ok(object(vec![], "{}")), "a".to_owned(), DnsRecordType::A, 0).unwrap();
    assert!(empty.answers.is_empty());
    assert_eq!(empty.result_class, "empty");
    let refused = parse_dns_query(
        &Ok(object(vec![("RCode", string("REFUSED")), ("LatencyMs", string("+7"))], "{}")),
        "a".to_owned(),
        DnsRecordType::A,
        0,
    )
    .unwrap();
    assert_eq!(refused.result_class, "REFUSED");
    assert_eq!(refused.latency_ms, Some(7));
}

#[test]
fn single_answer_keeps_its_json_text_escaped() {
    let report = object(vec![("Answer", string("a\"b\n\u{1}"))], "{}");
    let result = parse_dns_query(&Ok(report), "a".to_owned(), DnsRecordType::Txt, 0).unwrap();
    assert_eq!(result.answers.len(), 1);
    assert_eq!(result.answers[0].value, "a\"b\n\u{1}");
    assert_eq!(result.answers[0].raw_detail, Some("\"a\\\"b\\n\\u0001\"".to_owned()));
}

#[test]
fn long_reports_are_cut_with_a_marker() {
    let long = "x".repeat(9000);
    let result = parse_dns_query(&Ok(object(vec![], &long)), "a".to_owned(), DnsRecordType::A, 0).unwrap();
    assert_eq!(result.raw_detail, format!("{}...[detail truncated]", "x".repeat(8192)));
}

#[test]
fn whois_prefers_the_machine_object() {
    let machine = object(
        vec![
            ("Name", string("laptop")),
            ("Addresses", array(vec![string("100.64.0.7"), string("fd7a::7")], "")),
            ("Tags", string("tag:dev")),
        ],
        "",
    );
    let report = object(
        vec![("Node", machine), ("ID", string("n123")), ("LoginName", string("alice@example.com"))],
        "{}",
    );
    let whois = parse_whois(&Ok(report), "100.64.0.7".to_owned(), 9).unwrap();
    assert_eq!(whois.query, "100.64.0.7");
    assert_eq!(whois.machine_id, Some("n123".to_owned()));
    assert_eq!(whois.machine_name, Some("laptop".to_owned()));
    assert_eq!(whois.addresses, vec!["100.64.0.7".to_owned(), "fd7a::7".to_owned()]);
    assert_eq!(whois.tags, vec!["tag:dev".to_owned()]);
    assert_eq!(whois.user_identity, Some("alice@example.com".to_owned()));
    assert!(whois.capabilities.is_empty());
    assert_eq!(whois.raw_detail, "{}");
}

#[test]
fn netcheck_sorts_regions_and_collects_addresses_once() {
    let regions = object(
        vec![
            ("fra", object(vec![("Latency", number("20", Some(20))), ("Name", string("Frankfurt"))], "")),
            ("nyc", number("0.005", Some(5))),
            ("sfo", number("15", Some(15))),
            ("xyz", JsonValue::Null),
        ],
        "",
    );
    let report = object(
        vec![
            ("UDP", JsonValue::Bool(true)),
            ("IPv4", string("203.0.113.5")),
            ("PublicIP", string("203.0.113.5")),
            ("IPv6", array(vec![string("2001:db8::1")], "")),
            ("RegionLatency", regions),
            ("PreferredDERP", number("3", Some(3))),
        ],
        "",
    );
    let observation = parse_netcheck_json(&Ok(report), 11).unwrap();
    assert_eq!(observation.udp, Some(true));
    assert_eq!(observation.ipv4, None);
    assert_eq!(observation.nearest_derp, Some("3".to_owned()));
    let order: Vec<(&str, Option<u64>)> = observation
        .derp_latency
        .iter()
        .map(|region| (region.region_code.as_str(), region.latency_ms))
        .collect();
    assert_eq!(order, vec![("xyz", None), ("nyc", Some(5)), ("sfo", Some(15)), ("fra", Some(20))]);
    assert_eq!(observation.derp_latency[3].region_name, Some("Frankfurt".to_owned()));
    assert_eq!(
        observation.sensitive_addresses,
        vec!["203.0.113.5".to_owned(), "2001:db8::1".to_owned()]
    );
    assert_eq!(observation.observed_at, Some(11));
}

#[test]
fn netcheck_rejects_a_report_that_is_not_an_object() {
    assert_eq!(
        parse_netcheck_json(&Ok(JsonValue::Bool(true)), 0),
        Err("netcheck result was not an object".to_owned())
    );
    assert_eq!(
        parse_netcheck_json(&Err("bad".to_owned()), 0),
        Err("invalid netcheck JSON: bad".to_owned())
    );
}

#[test]
fn netcheck_lines_keep_the_last_report_and_every_complaint() {
    let first = object(vec![("UDP", JsonValue::Bool(false))], "");
    let last = object(vec![("UDP", JsonValue::Bool(true))], "");
    let lines = vec![Ok(first), Err("bad".to_owned()), Ok(number("1", Some(1))), Ok(last)];
    let (latest, errors) = parse_netcheck_lines(&lines, 3);
    assert_eq!(latest.map(|observation| observation.udp), Some(Some(true)));
    assert_eq!(
        errors,
        vec!["invalid netcheck line: bad".to_owned(), "netcheck result was not an object".to_owned()]
    );
}

#[test]
fn netcheck_reports_read_as_one_line() {
    let mut report = NetcheckObservation {
        udp: Some(true),
        ipv4: Some(false),
        ipv6: None,
        mapping_varies_by_destination: None,
        hairpinning: None,
        port_mapping: Vec::new(),
        nearest_derp: Some("fra".to_owned()),
        derp_latency: vec![
            DerpLatency { region_code: "fra".to_owned(), region_name: None, latency_ms: Some(12) },
            DerpLatency { region_code: "nyc".to_owned(), region_name: None, latency_ms: None },
        ],
        sensitive_addresses: Vec::new(),
        observed_at: None,
    };
    assert_eq!(
        format_netcheck_summary(&report),
        "netcheck: udp=true ipv4=false ipv6=not returned nearest-derp=fra regions=2"
    );
    report.nearest_derp = None;
    report.derp_latency.clear();
    report.udp = None;
    assert_eq!(
        format_netcheck_summary(&report),
        "netcheck: udp=not returned ipv4=false ipv6=not returned nearest-derp=not returned regions=0"
    );
}

fn out_line(stream: OutputStream, text: &[u8]) -> tale::local::process::ProcessLine {
    tale::local::process::ProcessLine { stream, bytes: text.to_vec() }
}

#[test]
fn streamed_ping_lines_become_samples_and_progress() {
    let mut acc = StreamAccumulator::new();
    let request = DiagnosticRequest::Ping { target: "peer".to_owned() };
    let none: Result<JsonValue, String> = Err("unused".to_owned());
    let reply = out_line(OutputStream::Stdout, b"pong from peer (100.64.0.2) via DERP(fra) in 23ms\r\n");
    let p = handle_stream_line(&mut acc, &request, &reply, &none, 7).expect("progress");
    assert_eq!(p.progress.completed, 1);
    assert_eq!(p.progress.total, 10);
    assert_eq!(p.detail, "pong from peer (100.64.0.2) via DERP(fra) in 23ms");
    let sample = p.sample.expect("sample");
    assert_eq!(sample.sequence, 1);
    assert_eq!(sample.latency_ms, Some(23));
    assert_eq!(acc.ping_samples.len(), 1);
    assert!(acc.detail.is_empty());
    let other = out_line(OutputStream::Stdout, b"timeout waiting for reply");
    let p = handle_stream_line(&mut acc, &request, &other, &none, 8).expect("progress");
    assert_eq!(p.sample.expect("a reply line").latency_ms, None);
    assert_eq!(p.progress.completed, 2);
    let noise = out_line(OutputStream::Stdout, b"starting");
    let p = handle_stream_line(&mut acc, &request, &noise, &none, 9).expect("progress");
    assert!(p.sample.is_none());
    assert_eq!(p.progress.completed, 2);
    assert_eq!(acc.detail, "starting");
    assert_eq!(acc.sequence, 3);
    let err = out_line(OutputStream::Stderr, b"warning\n");
    assert!(handle_stream_line(&mut acc, &request, &err, &none, 9).is_none());
    assert_eq!(acc.detail, "starting\nstderr: warning");
    let bad = out_line(OutputStream::Stdout, &[0xff, 0xfe]);
    assert!(handle_stream_line(&mut acc, &request, &bad, &none, 9).is_none());
    assert_eq!(acc.detail, "starting\nstderr: warning\nstdout: non-UTF-8 output");
    assert_eq!(acc.sequence, 3);
}

#[test]
fn streamed_netcheck_lines_are_kept_and_read() {
    let mut acc = StreamAccumulator::new();
    let request = DiagnosticRequest::Netcheck { live: true };
    let line = out_line(OutputStream::Stdout, b"{\"UDP\":true}\n");
    assert_eq!(stream_line_text(&line.bytes).as_deref(), Some("{\"UDP\":true}"));
    let parsed = Ok(object(vec![("UDP", JsonValue::Bool(true))], "{\"UDP\":true}"));
    let p = handle_stream_line(&mut acc, &request, &line, &parsed, 3).expect("progress");
    assert_eq!(p.progress.completed, 1);
    assert_eq!(p.progress.total, 0);
    assert_eq!(p.netcheck.expect("report").udp, Some(true));
    assert!(acc.detail.is_empty());
    let text = out_line(OutputStream::Stdout, b"Report:");
    let p = handle_stream_line(&mut acc, &request, &text, &Err("expected value".to_owned()), 3).expect("progress");
    assert!(p.netcheck.is_none());
    assert_eq!(acc.detail, "Report:");
    assert_eq!(acc.netcheck_lines, vec!["{\"UDP\":true}".to_owned(), "Report:".to_owned()]);
    let dns = DiagnosticRequest::DnsStatus;
    assert!(handle_stream_line(&mut acc, &dns, &text, &Err("x".to_owned()), 3).is_none());
    assert_eq!(acc.netcheck_lines.len(), 2);
}

#[test]
fn whois_targets_must_name_an_address() {
    let local = IpAddress::V4(0x7f00_0001);
    let with_port = validate_whois_target("127.0.0.1:41641", Some((local, 41641)), None).expect("socket");
    assert_eq!(with_port.target, "127.0.0.1:41641");
    assert_eq!(with_port.address, local);
    assert_eq!(with_port.port, Some(41641));
    let bare = validate_whois_target("::1", None, Some(IpAddress::V6(1))).expect("address");
    assert_eq!(bare.address, IpAddress::V6(1));
    assert_eq!(bare.port, None);
    assert_eq!(
        validate_whois_target("", None, None).err().as_deref(),
        Some("whois target must be an IP address or IP address with port")
    );
    assert_eq!(
        validate_whois_target("1.2.3.4 x", None, Some(IpAddress::V4(1))).err().as_deref(),
        Some("whois target must be an IP address or IP address with port")
    );
    assert_eq!(
        validate_whois_target("peer", None, None).err().as_deref(),
        Some("whois target is not a valid IP address or socket address")
    );
}
